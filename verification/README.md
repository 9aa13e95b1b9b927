# WindowsClear

WindowsClear frees space on the system drive of Windows. It finds the folders below
`%LOCALAPPDATA%` and `%APPDATA%` that take up more than a tenth of the directory they are in,
moves them to another drive, and leaves a directory junction in their place, so that the
software that uses them does not notice.

## Layout

- `src/` is the library: what the tool decides, with contracts that Verus proves. It does no
  work on the disk itself.
- `app/` is the program: the window, and the work on the disk, on processes and on threads.
- `tests/` runs the library on concrete values.

## How the library works

Each operation on the disk is a machine. A step names the one piece of work that is due, such
as renaming a folder to its backup; a reply tells what came of it; `next` takes the reply to
the next step. The program performs the steps and knows nothing else of the operation.

| Module | What it decides |
| --- | --- |
| `scanner` | which folders are large, and which sizes are kept for the next scan |
| `mover::migrate` | how a folder is moved and linked, and what is taken back on failure |
| `mover::link` | how a folder is replaced by a junction by way of a backup |
| `mover::children` | how the directories in a folder are replaced one by one |
| `mover::restore` | how a folder is brought back |
| `mover::walk`, `worker`, `pool`, `copy`, `chunks`, `tree`, `overlay` | how a tree is copied, by one or by many |
| `batch` | in what order the selected folders are moved, and what the window is told |
| `proc_mgr` | how the processes that hold a file are asked for and ended |
| `history` | the records of the folders that were moved |
| `ui`, `i18n`, `units`, `text` | what the window shows, in Chinese and in English |

## What is proved

Besides the contract of every function, the library states laws as proof functions named
`law_...`. Among them:

- However the work goes, a folder that is moved, linked or brought back is never lost
  (`law_move_keeps_folder`, `law_link_keeps_folder`, `law_restore_keeps_folder`), and bringing
  a folder back undoes its move (`law_restore_undoes_move`).
- A backup is removed only while the junction stands (`law_link_backup_outlives_junction`).
- Processes are ended only where that is allowed (`law_link_kills_only_where_allowed`,
  `law_restore_kills_only_where_allowed`, `law_batch_kills_only_where_allowed`).
- A move that ends well adds its record to the history, and one that fails leaves the history
  alone (`law_move_is_recorded_on_success`).
- Every process that holds a file below a folder is found, if the Restart Manager does its part
  (`law_lockers_are_found`).
- A copy is exact (`law_copy_is_exact`). It reaches every file, also when many workers take
  turns in any order (`law_walk_reaches_every_file`, `law_parallel_copy_is_complete`), and
  reports every byte (`law_tree_reports_every_byte`); a second copy writes nothing
  (`law_second_copy_writes_nothing`), and a copy onto an existing target leaves other files
  there alone (`law_copy_spares_other_files`).
- Every text of the window has an English wording (`law_interface_is_bilingual`).
- A folder is found exactly if it takes up more than a tenth of its directory
  (`law_large_folder_is_found`, `law_result_is_large_folder`).

What the library takes on trust is marked in the source: random record ids from the `uuid`
crate, the lower case of a text and the cloning of a path from the standard library.
