# app_structure

The app-directory structure of a Next.js project as JavaScript receives it:
every component and metadata file given by its path relative to the project
directory, arranged in loader trees, one per app entrypoint.

- `src/` is the verified library (Verus):
  - `fs_path.rs`: paths on a file system, path normalization, joining, the
    path of a file relative to a directory, and how a path reads. These
    follow the behaviour of the `turbo-tasks-fs` crate's `FileSystemPath`
    (`normalize_path`, `join`, `get_path_to`, `to_string`), stated and proved
    here because that crate is not a dependency of this build;
  - `project.rs`: where the project directory lies below the root directory;
  - `structure.rs`, `for_js.rs`: the app structure before and after the
    conversion;
  - `prepare.rs`: the conversion, with the first path outside of the project
    reported as an error;
  - `error.rs`: the errors and the messages that report them;
  - `laws.rs`: normalization is idempotent; relative paths and joining undo
    each other; converted trees and entrypoints keep their names in order,
    and distinct where they were.
- `app/` holds serializable copies of the result types and the glue that
  runs a scan of the app directory and hands the result on as JSON.
- `tests/` runs the library on concrete projects.
