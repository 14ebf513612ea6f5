# axvirtio_blk

A virtio-blk block device for virtual machines, verified with Verus. A guest
finds a virtio 1.0 device behind an MMIO register window, sets up a virtqueue
and puts read, write and flush requests and requests for the serial number into
it; the device serves them from a disk in memory or in a file of the hypervisor.
A disk can be configured as read-only.

## How it works

Serving the queue alternates between decisions and outside work: reading and
writing guest memory, reading, writing and flushing the disk, injecting an
interrupt. Each decision is a verified function that takes the registers and the
reply to the last piece of work. It returns a `Step`: the next piece of work
together with what the device has to remember until it is done, or the end.
Whoever drives the device performs the step and hands the reply to the matching
`*_done` function.

## Layout

| Path | Content |
| --- | --- |
| `src/device.rs` | the device: configuration, register accesses, the `*_done` functions |
| `src/step.rs` | steps, and what is remembered between them |
| `src/protocol.rs` | what the device does next, as a function of its state and a reply |
| `src/registers.rs` | the register file and the configuration space |
| `src/queue.rs` | descriptors and the walk along a descriptor chain |
| `src/backend.rs` | the disk interface and the disk in memory |
| `src/config.rs` | configuration, and the numbers in it |
| `src/bytes.rs` | little-endian integers |
| `src/virtio/` | constants of the protocol |
| `src/service.rs` | what the steps of a whole notification add up to |
| `src/laws/` | laws of registers, disks, chains, steps and requests |
| `tests/` | tests |
| `app/` | the device on the MMIO bus of Axvisor, and the disk in a file |

## What is proved

- Every function of the device returns exactly the step, and leaves exactly the
  registers, that `src/protocol.rs` tells.
- With a guest in memory and a disk in memory, a notification ends as
  `service::notification` tells (`service::lemma_notification_run`).
- What a guest has written to a sector it reads back
  (`laws::requests::law_notified_round_trip`).
- Whatever the replies are, a notification is dealt with in bounded time
  (`laws::progress::law_notifications_end`), and no request is served twice
  (`laws::progress::law_repeated_notification`).
- A read-only disk is never written (`laws::progress::law_readonly`,
  `laws::requests::law_readonly_disk`).

Two functions of the standard library are believed without proof, both in
`src/config.rs`: `str::trim_start_matches` and `usize::from_str_radix`.
