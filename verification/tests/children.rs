use windows_clear::mover::children::{ChildReply, ChildStep, Tally};
use windows_clear::mover::link::LinkError;

#[derive(Clone, Copy)]
struct Child {
    is_link: bool,
    is_dir: bool,
    has_copy: bool,
    placed: Option<u64>,
}

fn play(children: &[Child]) -> Tally {
    let mut step = ChildStep::start();
    let mut at = 0;
    loop {
        let reply = match &step {
            ChildStep::Open => ChildReply::Done,
            ChildStep::NextEntry(_) => {
                at += 1;
                if at <= children.len() {
                    ChildReply::Entry
                } else {
                    ChildReply::End
                }
            }
            ChildStep::IsLink(_) => ChildReply::Answer(children[at - 1].is_link),
            ChildStep::IsDirectory(_) => ChildReply::Answer(children[at - 1].is_dir),
            ChildStep::HasCopy(_) => ChildReply::Answer(children[at - 1].has_copy),
            ChildStep::Place(_) => ChildReply::Placed(match children[at - 1].placed {
                Some(left) => Ok(left),
                None => Err(LinkError::RestoreFailed),
            }),
            ChildStep::Finished(tally) => return *tally,
        };
        step = step.next(reply);
    }
}

#[test]
fn directories_are_linked_one_by_one() {
    let good = Child { is_link: false, is_dir: true, has_copy: true, placed: Some(0) };
    let tally = play(&[
        good,
        Child { is_link: true, ..good },
        Child { is_dir: false, ..good },
        Child { has_copy: false, ..good },
        Child { placed: None, ..good },
        Child { placed: Some(30), ..good },
        Child { placed: Some(12), ..good },
    ]);
    assert_eq!(tally, Tally { linked: 3, total: 5, left_behind: 42 });
}

#[test]
fn empty_folder_has_nothing_to_link() {
    assert_eq!(play(&[]), Tally { linked: 0, total: 0, left_behind: 0 });
}

#[test]
fn unreadable_folder_has_nothing_to_link() {
    let step = ChildStep::start().next(ChildReply::Unreadable);
    let none = Tally { linked: 0, total: 0, left_behind: 0 };
    assert!(matches!(step, ChildStep::Finished(tally) if tally == none));
}

#[test]
fn directories_that_could_not_be_linked_do_not_count() {
    let stuck = Child { is_link: false, is_dir: true, has_copy: true, placed: None };
    assert_eq!(play(&[stuck, stuck]), Tally { linked: 0, total: 2, left_behind: 0 });
}
