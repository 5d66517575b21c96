//! The theme resolver: which theme to search for the default cursor's icon,
//! in which order, and when to stop.
//!
//! Searching a theme's icon set is the caller's work. The resolver is told
//! the outcomes of the searches made so far and says what comes next.

use crate::error::CursorError;
use vstd::prelude::*;

verus! {

/// The icon of the default cursor, searched for in each theme.
pub const ICON_NAME: &'static str = "left_ptr";

/// The first theme to fall back to.
pub const FIRST_FALLBACK: &'static str = "Adwaita";

/// The last theme to fall back to.
pub const LAST_FALLBACK: &'static str = "DMZ-White";

/// How many themes are searched at most: the one asked for and two fallbacks.
pub const CANDIDATES: usize = 3;

/// What the resolver asks for next.
#[derive(Debug, PartialEq, Eq)]
pub enum ResolveAction {
    /// Search this theme's icon set for the icon.
    Search(String),
    /// Take the icon that the search of this number found, counted from 0.
    Found(usize),
}

/// A resolver's action, as plain values.
pub enum ActionView {
    Search(Seq<char>),
    Found(int),
}

impl View for ResolveAction {
    type V = ActionView;

    open spec fn view(&self) -> ActionView {
        match self {
            ResolveAction::Search(theme) => ActionView::Search(theme@),
            ResolveAction::Found(at) => ActionView::Found(*at as int),
        }
    }
}

/// The view of a resolver's action, or its error.
pub open spec fn step_view(step: Result<ResolveAction, CursorError>) -> Result<
    ActionView,
    CursorError,
> {
    match step {
        Ok(action) => Ok(action@),
        Err(e) => Err(e),
    }
}

/// The theme of the search with number `attempt`: first the one asked for,
/// then the two fallbacks.
pub open spec fn candidate_theme(requested: Seq<char>, attempt: int) -> Seq<char> {
    if attempt == 0 {
        requested
    } else if attempt == 1 {
        FIRST_FALLBACK@
    } else {
        LAST_FALLBACK@
    }
}

/// Which of the searches made so far found the icon.
pub open spec fn hits<P>(outcomes: Seq<Option<P>>) -> Seq<bool> {
    outcomes.map_values(|outcome: Option<P>| outcome is Some)
}

/// The number of the first search that found the icon; the number of
/// searches where none did.
pub open spec fn first_hit(found: Seq<bool>) -> int
    decreases found.len(),
{
    if found.len() == 0 {
        0
    } else if found[0] {
        0
    } else {
        1 + first_hit(found.skip(1))
    }
}

/// What comes after searches with the outcomes `found`, made in the order
/// of the candidates: take the first icon found; else search the next
/// candidate; else, every candidate searched, the theme is not found.
pub open spec fn next_step(requested: Seq<char>, found: Seq<bool>) -> Result<
    ActionView,
    CursorError,
> {
    if first_hit(found) < found.len() {
        Ok(ActionView::Found(first_hit(found)))
    } else if found.len() < CANDIDATES {
        Ok(ActionView::Search(candidate_theme(requested, found.len() as int)))
    } else {
        Err(CursorError::ThemeNotFound)
    }
}

/// Where the resolver ends when it goes on from the outcomes `found` and
/// each search is answered by `has_icon`: the theme whose icon it takes, or
/// the error that no theme has it.
pub open spec fn resolution(
    requested: Seq<char>,
    has_icon: spec_fn(Seq<char>) -> bool,
    found: Seq<bool>,
) -> Result<Seq<char>, CursorError>
    decreases CANDIDATES - found.len(),
{
    match next_step(requested, found) {
        Ok(ActionView::Found(at)) => Ok(candidate_theme(requested, at)),
        Ok(ActionView::Search(theme)) => if found.len() < CANDIDATES {
            resolution(requested, has_icon, found.push(has_icon(theme)))
        } else {
            Err(CursorError::ThemeNotFound)
        },
        Err(e) => Err(e),
    }
}

/// What comes after the searches with the outcomes `outcomes`, made in the
/// order of the candidates, for the theme `requested`: the icon to take,
/// the theme to search next, or the error that no theme has the icon.
pub fn next_action<P>(requested: &str, outcomes: &Vec<Option<P>>) -> (step: Result<
    ResolveAction,
    CursorError,
>)
    ensures
        step_view(step) == next_step(requested@, hits(outcomes@)),
{
    let mut i: usize = 0;
    while i < outcomes.len()
        invariant
            0 <= i <= outcomes@.len(),
            forall|j: int| 0 <= j < i ==> !hits(outcomes@)[j],
        decreases outcomes@.len() - i,
    {
        if outcomes[i].is_some() {
            proof {
                lemma_first_hit_at(hits(outcomes@), i as int);
            }
            return Ok(ResolveAction::Found(i));
        }
        i = i + 1;
    }
    proof {
        lemma_first_hit_at(hits(outcomes@), i as int);
    }
    if outcomes.len() == 0 {
        Ok(ResolveAction::Search(requested.to_owned()))
    } else if outcomes.len() == 1 {
        Ok(ResolveAction::Search(FIRST_FALLBACK.to_owned()))
    } else if outcomes.len() == 2 {
        Ok(ResolveAction::Search(LAST_FALLBACK.to_owned()))
    } else {
        Err(CursorError::ThemeNotFound)
    }
}

/// The fallback order. Started with no search made, the resolver takes the
/// icon of the theme asked for where that theme has it; else the icon of
/// the first fallback where that has it; else the icon of the last fallback
/// where that has it; and it fails only where all three lack the icon.
pub proof fn lemma_fallback_order(requested: Seq<char>, has_icon: spec_fn(Seq<char>) -> bool)
    ensures
        resolution(requested, has_icon, Seq::empty()) == if has_icon(requested) {
            Ok::<Seq<char>, CursorError>(requested)
        } else if has_icon(FIRST_FALLBACK@) {
            Ok(FIRST_FALLBACK@)
        } else if has_icon(LAST_FALLBACK@) {
            Ok(LAST_FALLBACK@)
        } else {
            Err(CursorError::ThemeNotFound)
        },
{
    let none = Seq::<bool>::empty();
    let one = none.push(has_icon(requested));
    let two = one.push(has_icon(FIRST_FALLBACK@));
    let three = two.push(has_icon(LAST_FALLBACK@));
    lemma_first_hit_at(none, 0);
    assert(resolution(requested, has_icon, none) == resolution(requested, has_icon, one));
    if has_icon(requested) {
        lemma_first_hit_at(one, 0);
    } else {
        lemma_first_hit_at(one, 1);
        assert(resolution(requested, has_icon, one) == resolution(requested, has_icon, two));
        if has_icon(FIRST_FALLBACK@) {
            lemma_first_hit_at(two, 1);
        } else {
            lemma_first_hit_at(two, 2);
            assert(resolution(requested, has_icon, two) == resolution(
                requested,
                has_icon,
                three,
            ));
            if has_icon(LAST_FALLBACK@) {
                lemma_first_hit_at(three, 2);
            } else {
                lemma_first_hit_at(three, 3);
            }
        }
    }
}

/// A search is the first hit when no search before it found the icon and
/// it, if there is one, did.
pub proof fn lemma_first_hit_at(found: Seq<bool>, at: int)
    requires
        0 <= at <= found.len(),
        forall|i: int| 0 <= i < at ==> !found[i],
        at < found.len() ==> found[at],
    ensures
        first_hit(found) == at,
    decreases found.len(),
{
    if found.len() > 0 && at > 0 {
        let rest = found.skip(1);
        assert forall|i: int| 0 <= i < at - 1 implies !rest[i] by {
            assert(rest[i] == found[i + 1]);
        }
        lemma_first_hit_at(rest, at - 1);
    }
}

} // verus!
