# release_plz_core

The decisions that a release of a cargo workspace takes, as a verified library: which packages
changed since they were last released, where their last release is found, and how the next one is
described.

The library does no input or output. A decision that needs something from the disk, from git, from
cargo or from a registry is a small state machine: `request` says what it asks for, `reply` goes on
with the answer, and `result` gives the outcome. Each machine has a view with the spec functions
`asks` and `next`, and the contracts say that the executable machine follows its view. What a whole
run amounts to is stated, without the stages in between, in the modules whose names end in `_laws`.

- `package_compare`, `file_list`, `readme`: comparing a package with its last release
- `git_only`, `release_packages`, `registry`: the last releases, by git tags and from a registry
- `next_ver`, `update_request`: determining the next versions
- `packages_update`, `changelog`, `version`: describing the updates
- `package`, `path`, `order`, `text`, `io`: what the others are built from
- `compare_laws`, `source_laws`, `walk_laws`, `listing_laws`, `release_laws`: what the machines
  come to

`app/` performs the requests with files, git and cargo.
