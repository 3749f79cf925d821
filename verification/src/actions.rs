//! The menus offered once a model has answered: what to do with its commits
//! and how to edit one of them.
use vstd::prelude::*;

verus! {

/// What to do with the proposed commits.
#[derive(Clone, Copy, PartialEq, Eq, Structural, Debug)]
pub enum ResponseActions {
    Apply,
    Regen,
    Edit,
    Quit,
}

/// How to edit a proposed commit.
#[derive(Clone, Copy, PartialEq, Eq, Structural, Debug)]
pub enum EditActions {
    Next,
    Previous,
    Remove,
    Prefix,
    Scope,
    Header,
    Body,
    Quit,
}

/// The entries of the menu on the proposed commits: action, key, label.
pub open spec fn spec_response_opts() -> Seq<(ResponseActions, char, Seq<char>)> {
    seq![
        (ResponseActions::Apply, 'y', "apply all commit/s"@),
        (ResponseActions::Regen, 'r', "regenerate commits"@),
        (ResponseActions::Edit, 'e', "edit a commit"@),
        (ResponseActions::Quit, 'q', "quit"@),
    ]
}

/// The entries of the menu on editing a commit: action, key, label.
pub open spec fn spec_edit_opts() -> Seq<(EditActions, char, Seq<char>)> {
    seq![
        (EditActions::Next, 'n', "next commit"@),
        (EditActions::Previous, 'r', "return to previous commit"@),
        (EditActions::Remove, 'd', "remove commit from list"@),
        (EditActions::Prefix, 'p', "edit prefix"@),
        (EditActions::Scope, 's', "edit scope"@),
        (EditActions::Header, 'h', "edit header"@),
        (EditActions::Body, 'b', "edit body in $EDITOR"@),
        (EditActions::Quit, 'q', "quit"@),
    ]
}

/// The entries of the menu on the proposed commits.
pub fn response_opts() -> (r: Vec<(ResponseActions, char, &'static str)>)
    ensures
        r@.map_values(|e: (ResponseActions, char, &'static str)| (e.0, e.1, e.2@))
            == spec_response_opts(),
{
    let v = vec![
        (ResponseActions::Apply, 'y', "apply all commit/s"),
        (ResponseActions::Regen, 'r', "regenerate commits"),
        (ResponseActions::Edit, 'e', "edit a commit"),
        (ResponseActions::Quit, 'q', "quit"),
    ];
    assert(v@.map_values(|e: (ResponseActions, char, &'static str)| (e.0, e.1, e.2@))
        =~= spec_response_opts());
    v
}

/// The entries of the menu on editing a commit.
pub fn edit_opts() -> (r: Vec<(EditActions, char, &'static str)>)
    ensures
        r@.map_values(|e: (EditActions, char, &'static str)| (e.0, e.1, e.2@)) == spec_edit_opts(),
{
    let v = vec![
        (EditActions::Next, 'n', "next commit"),
        (EditActions::Previous, 'r', "return to previous commit"),
        (EditActions::Remove, 'd', "remove commit from list"),
        (EditActions::Prefix, 'p', "edit prefix"),
        (EditActions::Scope, 's', "edit scope"),
        (EditActions::Header, 'h', "edit header"),
        (EditActions::Body, 'b', "edit body in $EDITOR"),
        (EditActions::Quit, 'q', "quit"),
    ];
    assert(v@.map_values(|e: (EditActions, char, &'static str)| (e.0, e.1, e.2@))
        =~= spec_edit_opts());
    v
}

} // verus!
