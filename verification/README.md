# bootc_deploy

The decisions behind fetching, staging and rolling back image-based deployments, verified with Verus.

- `src/` is the verified library. It works on plain values: what was read from a registry, a
  repository or a file goes in, what is to be written, sent or printed comes out.
  - `fstab`, `fstab_laws`: rewriting `/etc/fstab` so that `/` is mounted read-only
  - `progress`, `progress_laws`: the progress of a fetch, layer by layer
  - `image`, `digest`, `pull`: images, their layers, and whether and how they are fetched
  - `stage`: staging a fetched image as the next deployment
  - `cleanup`: what is kept when old images and deployments are removed
  - `rollback`, `spec`: the host's specification, and swapping its boot order
  - `inplace`: changing the origin of the newest deployment
  - `event`, `error`, `text`: events, errors, and text
- `tests/` runs the library.
- `app/` is the side that touches the world: files, terminals, channels, and the host, whose ostree
  sysroot is reached through the traits in `app/host.rs`.

Outside crates that the library itself calls are `oci_spec`, which says what a digest is, and
`indicatif`, which writes sizes and times for people to read. What is assumed of them stands with the
functions that call them, in `digest` and `progress`.
