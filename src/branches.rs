//! Choice of the reference branch that posts are read from.

use vstd::prelude::*;
use crate::config::strings_view;
use crate::text::push_str;

verus! {

/// What to do about the reference branch.
#[derive(Debug, Clone)]
pub enum MainBranchChoice {
    /// Use this branch.
    Use(String),
    /// Both `main` and `master` exist: ask which one, with this question.
    Ask(String),
    /// No usable branch: stop, with this explanation.
    Fail(String),
}

/// Is `name` one of `list`?
pub fn contains_name(list: &Vec<String>, name: &str) -> (r: bool)
    ensures
        r == strings_view(list@).contains(name@),
{
    let mut i: usize = 0;
    while i < list.len()
        invariant
            i <= list@.len(),
            forall|j: int| 0 <= j < i ==> list@[j]@ != name@,
        decreases list.len() - i,
    {
        let n = name.to_owned();
        if list[i] == n {
            assert(strings_view(list@)[i as int] == name@);
            return true;
        }
        i = i + 1;
    }
    assert forall|j: int| 0 <= j < strings_view(list@).len() implies strings_view(list@)[j] != name@ by {
        assert(strings_view(list@)[j] == list@[j]@);
    }
    false
}

/// Why neither `main` nor `master` can be taken without asking.
pub open spec fn both_branches_message() -> Seq<char> {
    "Looks like you have both master and main branches\nThis program does not know which one to use"@
}

/// The decision for the reference branch, given the branch asked for (if
/// any), the branches that exist, and whether questions may be asked.
pub open spec fn main_branch_choice_of(
    requested: Option<Seq<char>>,
    branches: Seq<Seq<char>>,
    no_interactive: bool,
) -> MainBranchChoiceView {
    match requested {
        Some(b) => if branches.contains(b) {
            MainBranchChoiceView::Use(b)
        } else {
            MainBranchChoiceView::Fail("Failed to find the reference branch: "@ + b)
        },
        None => {
            let has_main = branches.contains("main"@);
            let has_master = branches.contains("master"@);
            if has_main && has_master {
                if no_interactive {
                    MainBranchChoiceView::Fail(both_branches_message())
                } else {
                    MainBranchChoiceView::Ask(
                        both_branches_message()
                            + "\nWhich one would you like to use as the main reference branch?"@,
                    )
                }
            } else if has_main {
                MainBranchChoiceView::Use("main"@)
            } else if has_master {
                MainBranchChoiceView::Use("master"@)
            } else {
                MainBranchChoiceView::Fail("Failed to find either master or main branch"@)
            }
        },
    }
}

/// The mathematical content of a `MainBranchChoice`.
pub ghost enum MainBranchChoiceView {
    Use(Seq<char>),
    Ask(Seq<char>),
    Fail(Seq<char>),
}

impl View for MainBranchChoice {
    type V = MainBranchChoiceView;

    open spec fn view(&self) -> MainBranchChoiceView {
        match self {
            MainBranchChoice::Use(s) => MainBranchChoiceView::Use(s@),
            MainBranchChoice::Ask(s) => MainBranchChoiceView::Ask(s@),
            MainBranchChoice::Fail(s) => MainBranchChoiceView::Fail(s@),
        }
    }
}

/// Decides the reference branch: the one asked for if it exists; else
/// whichever of `main` and `master` exists, asking (or failing, when no
/// questions may be asked) if both do.
pub fn get_main_reference_branch(main_branch_name: &Option<String>, branch_list: &Vec<String>, no_interactive: bool) -> (r: MainBranchChoice)
    ensures
        r@ == main_branch_choice_of(
            crate::config::opt_view(*main_branch_name),
            strings_view(branch_list@),
            no_interactive,
        ),
{
    match main_branch_name {
        Some(b) => {
            if contains_name(branch_list, b.as_str()) {
                MainBranchChoice::Use(b.clone())
            } else {
                let mut m = String::new();
                push_str(&mut m, "Failed to find the reference branch: ");
                push_str(&mut m, b.as_str());
                assert(m@ =~= "Failed to find the reference branch: "@ + b@);
                MainBranchChoice::Fail(m)
            }
        },
        None => {
            let has_main = contains_name(branch_list, "main");
            let has_master = contains_name(branch_list, "master");
            if has_main && has_master {
                let mut m = String::new();
                push_str(
                    &mut m,
                    "Looks like you have both master and main branches\nThis program does not know which one to use",
                );
                if no_interactive {
                    MainBranchChoice::Fail(m)
                } else {
                    push_str(&mut m, "\nWhich one would you like to use as the main reference branch?");
                    MainBranchChoice::Ask(m)
                }
            } else if has_main {
                MainBranchChoice::Use("main".to_owned())
            } else if has_master {
                MainBranchChoice::Use("master".to_owned())
            } else {
                MainBranchChoice::Fail("Failed to find either master or main branch".to_owned())
            }
        },
    }
}

} // verus!
