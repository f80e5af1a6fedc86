//! The rotation: which picture, or pair of portrait pictures, is shown
//! next, and the advance of their rotation timestamps.
//!
//! The picture shown longest ago goes first. Chance enters through three
//! draws that the caller supplies; everything else is a function of the
//! album, the clock reading and the draws.

use crate::media::{distinct_ids, Album, MediaItem, MediaItemView, Orientation};
use vstd::arithmetic::div_mod::lemma_small_mod;
use vstd::prelude::*;

verus! {

/// The three random numbers that one selection consumes.
#[derive(Clone, Copy, Debug, PartialEq, Eq)]
pub struct Draws {
    /// Breaks a tie between the pictures shown longest ago.
    pub primary: u64,
    /// Picks the partner of a portrait picture.
    pub secondary: u64,
    /// Decides which picture of a pair comes first.
    pub order: u64,
}

/// Why nothing was selected.
#[derive(Clone, Copy, Debug, PartialEq, Eq, Structural)]
pub enum SelectionError {
    /// The album holds no picture.
    SelectionFailed,
}

/// `when` is the smallest rotation timestamp among `items`.
pub open spec fn is_least(items: Seq<MediaItemView>, when: int) -> bool {
    &&& exists|i: int| 0 <= i < items.len() && (#[trigger] items[i]).last_shown == when
    &&& forall|i: int| 0 <= i < items.len() ==> (#[trigger] items[i]).last_shown >= when
}

/// The smallest rotation timestamp among `items`, which must not be empty.
pub open spec fn least_last_shown(items: Seq<MediaItemView>) -> int
    recommends
        items.len() > 0,
{
    choose|when: int| is_least(items, when)
}

/// The indices below `n` that `keep` accepts, in ascending order.
pub open spec fn matching(n: int, keep: spec_fn(int) -> bool) -> Seq<int>
    decreases n,
{
    if n <= 0 {
        Seq::empty()
    } else if keep(n - 1) {
        matching(n - 1, keep).push(n - 1)
    } else {
        matching(n - 1, keep)
    }
}

/// Accepts the indices of the pictures shown at `when`.
pub open spec fn shown_at(items: Seq<MediaItemView>, when: int) -> spec_fn(int) -> bool {
    |i: int| items[i].last_shown == when
}

/// Accepts the indices of the portrait pictures other than `primary`.
pub open spec fn pairs_with(items: Seq<MediaItemView>, primary: int) -> spec_fn(int) -> bool {
    |i: int| i != primary && items[i].is_portrait()
}

/// The pictures shown longest ago, by index, in ascending order.
pub open spec fn tied(items: Seq<MediaItemView>) -> Seq<int> {
    matching(items.len() as int, shown_at(items, least_last_shown(items)))
}

/// The portrait pictures that can stand beside `primary`, by index, in
/// ascending order. Their rotation timestamps play no part.
pub open spec fn partners(items: Seq<MediaItemView>, primary: int) -> Seq<int> {
    matching(items.len() as int, pairs_with(items, primary))
}

/// The index of the picture that goes first: one of those shown longest
/// ago, the draw deciding among them.
pub open spec fn primary_index(items: Seq<MediaItemView>, draw: u64) -> int
    recommends
        items.len() > 0,
{
    tied(items)[draw as int % tied(items).len() as int]
}

/// The index of the picture shown beside the primary one: none for a
/// landscape primary or where no other portrait picture exists, else one
/// of the partners, the draw deciding among them.
pub open spec fn secondary_index(items: Seq<MediaItemView>, primary: int, draw: u64) -> Option<
    int,
> {
    let others = partners(items, primary);
    if items[primary].is_portrait() && others.len() > 0 {
        Some(others[draw as int % others.len() as int])
    } else {
        None
    }
}

/// Whether the selection made of `items` with `draws` takes the picture at `i`.
pub open spec fn is_selected(items: Seq<MediaItemView>, draws: Draws, i: int) -> bool {
    let primary = primary_index(items, draws.primary);
    i == primary || secondary_index(items, primary, draws.secondary) == Some(i)
}

/// The album after a selection at `now`: the selected pictures carry `now`,
/// all else is as before.
pub open spec fn advanced(items: Seq<MediaItemView>, now: int, draws: Draws) -> Seq<MediaItemView>
    recommends
        items.len() > 0,
{
    Seq::new(
        items.len(),
        |i: int|
            if is_selected(items, draws, i) {
                items[i].shown_at(now)
            } else {
                items[i]
            },
    )
}

/// The pictures of one selection in display order, and which of them is
/// the primary one.
pub struct SelectionView {
    pub items: Seq<MediaItemView>,
    pub primary: int,
}

impl SelectionView {
    /// One picture, or two distinct portrait pictures.
    pub open spec fn wf(self) -> bool {
        &&& 1 <= self.items.len() <= 2
        &&& 0 <= self.primary < self.items.len()
        &&& self.items.len() == 2 ==> {
            &&& self.items[0].is_portrait()
            &&& self.items[1].is_portrait()
            &&& self.items[0].id != self.items[1].id
        }
    }
}

/// What a selection at `now` returns: the selected pictures as they are
/// after the advance, the primary one first unless the order draw is odd.
pub open spec fn selected(items: Seq<MediaItemView>, now: int, draws: Draws) -> SelectionView
    recommends
        items.len() > 0,
{
    let primary = primary_index(items, draws.primary);
    match secondary_index(items, primary, draws.secondary) {
        None => SelectionView { items: seq![items[primary].shown_at(now)], primary: 0 },
        Some(secondary) => if draws.order % 2 == 0 {
            SelectionView {
                items: seq![items[primary].shown_at(now), items[secondary].shown_at(now)],
                primary: 0,
            }
        } else {
            SelectionView {
                items: seq![items[secondary].shown_at(now), items[primary].shown_at(now)],
                primary: 1,
            }
        },
    }
}

/// `matching` holds exactly the accepted indices below `n`, each once, in
/// ascending order.
pub proof fn lemma_matching(n: int, keep: spec_fn(int) -> bool)
    ensures
        matching(n, keep).len() <= if n > 0 { n } else { 0 },
        forall|k: int|
            0 <= k < matching(n, keep).len() ==> 0 <= #[trigger] matching(n, keep)[k] < n && keep(
                matching(n, keep)[k],
            ),
        forall|i: int| 0 <= i < n && keep(i) ==> #[trigger] matching(n, keep).contains(i),
        forall|k: int, l: int|
            0 <= k < l < matching(n, keep).len() ==> #[trigger] matching(n, keep)[k]
                < #[trigger] matching(n, keep)[l],
    decreases n,
{
    if n > 0 {
        lemma_matching(n - 1, keep);
        let before = matching(n - 1, keep);
        let all = matching(n, keep);
        if keep(n - 1) {
            assert(all == before.push(n - 1));
            assert(all[before.len() as int] == n - 1);
            assert forall|i: int| 0 <= i < n && keep(i) implies #[trigger] all.contains(i) by {
                if i < n - 1 {
                    assert(before.contains(i));
                    let k = choose|k: int| 0 <= k < before.len() && before[k] == i;
                    assert(all[k] == i);
                } else {
                    assert(all[before.len() as int] == i);
                }
            }
        }
    }
}

/// A non-empty sequence of pictures has a smallest rotation timestamp, and
/// only one.
pub proof fn lemma_least_exists(items: Seq<MediaItemView>)
    requires
        items.len() > 0,
    ensures
        is_least(items, least_last_shown(items)),
        forall|when: int| is_least(items, when) ==> when == least_last_shown(items),
    decreases items.len(),
{
    if items.len() == 1 {
        assert(is_least(items, items[0].last_shown));
    } else {
        let front = items.drop_last();
        let last = items.last();
        lemma_least_exists(front);
        let m = least_last_shown(front);
        let i = choose|i: int| 0 <= i < front.len() && (#[trigger] front[i]).last_shown == m;
        assert(items[i] == front[i]);
        if last.last_shown < m {
            assert(items[items.len() - 1].last_shown == last.last_shown);
            assert forall|j: int| 0 <= j < items.len() implies (#[trigger] items[j]).last_shown
                >= last.last_shown by {
                if j < front.len() {
                    assert(items[j] == front[j]);
                }
            }
            assert(is_least(items, last.last_shown));
        } else {
            assert forall|j: int| 0 <= j < items.len() implies (#[trigger] items[j]).last_shown
                >= m by {
                if j < front.len() {
                    assert(items[j] == front[j]);
                }
            }
            assert(is_least(items, m));
        }
    }
    let least = least_last_shown(items);
    assert forall|when: int| is_least(items, when) implies when == least by {
        let i = choose|i: int| 0 <= i < items.len() && (#[trigger] items[i]).last_shown == when;
        let j = choose|j: int| 0 <= j < items.len() && (#[trigger] items[j]).last_shown == least;
    }
}

/// One picture, or two portrait pictures to be shown side by side.
#[derive(Debug, PartialEq, Eq)]
pub struct Selection {
    first: MediaItem,
    second: Option<MediaItem>,
    primary_first: bool,
}

impl View for Selection {
    type V = SelectionView;

    closed spec fn view(&self) -> SelectionView {
        match self.second {
            None => SelectionView { items: seq![self.first@], primary: 0 },
            Some(other) => SelectionView {
                items: seq![self.first@, other@],
                primary: if self.primary_first {
                    0
                } else {
                    1
                },
            },
        }
    }
}

impl Selection {
    /// What holds of every selection: it is one picture, or two distinct
    /// portrait pictures.
    #[verifier::type_invariant]
    pub open spec fn wf(&self) -> bool {
        self@.wf()
    }

    /// A selection of one picture.
    pub fn single(item: MediaItem) -> (selection: Self)
        ensures
            selection.wf(),
            selection@ == (SelectionView { items: seq![item@], primary: 0 }),
    {
        Selection { first: item, second: None, primary_first: true }
    }

    /// A selection of two pictures in display order, or nothing unless both
    /// are portrait pictures with different ids.
    pub fn pair(first: MediaItem, second: MediaItem, primary_first: bool) -> (selection: Option<
        Self,
    >)
        ensures
            selection is Some <==> first@.is_portrait() && second@.is_portrait() && first@.id
                != second@.id,
            match selection {
                Some(both) => both.wf() && both@ == (SelectionView {
                    items: seq![first@, second@],
                    primary: if primary_first {
                        0
                    } else {
                        1
                    },
                }),
                None => true,
            },
    {
        if first.orientation == Orientation::Portrait && second.orientation
            == Orientation::Portrait && first.id != second.id {
            Some(Selection::paired(first, second, primary_first))
        } else {
            None
        }
    }

    /// A selection of two portrait pictures with different ids.
    pub(crate) fn paired(first: MediaItem, second: MediaItem, primary_first: bool) -> (both: Self)
        requires
            first@.is_portrait(),
            second@.is_portrait(),
            first@.id != second@.id,
        ensures
            both.wf(),
            both@ == (SelectionView {
                items: seq![first@, second@],
                primary: if primary_first {
                    0
                } else {
                    1
                },
            }),
    {
        Selection { first, second: Some(second), primary_first }
    }

    /// The number of pictures, one or two.
    pub fn len(&self) -> (n: usize)
        ensures
            n == self@.items.len(),
    {
        match &self.second {
            None => 1,
            Some(_) => 2,
        }
    }

    /// The picture that is shown first.
    pub fn first(&self) -> (item: &MediaItem)
        ensures
            item@ == self@.items[0],
    {
        &self.first
    }

    /// The picture that is shown second, if there are two.
    pub fn second(&self) -> (item: Option<&MediaItem>)
        ensures
            match item {
                Some(other) => self@.items.len() == 2 && other@ == self@.items[1],
                None => self@.items.len() == 1,
            },
    {
        match &self.second {
            None => None,
            Some(other) => Some(other),
        }
    }

    /// Whether the primary picture is the one shown first.
    pub fn primary_is_first(&self) -> (yes: bool)
        ensures
            yes <==> self@.primary == 0,
    {
        match &self.second {
            None => true,
            Some(_) => self.primary_first,
        }
    }

    /// The picture that was shown longest ago when the selection was made.
    pub fn primary(&self) -> (item: &MediaItem)
        ensures
            item@ == self@.items[self@.primary],
    {
        match &self.second {
            None => &self.first,
            Some(other) => if self.primary_first {
                &self.first
            } else {
                other
            },
        }
    }

    /// The picture that was paired with the primary one, if there are two.
    pub fn secondary(&self) -> (item: Option<&MediaItem>)
        ensures
            match item {
                Some(other) => self@.items.len() == 2 && other@ == self@.items[1 - self@.primary],
                None => self@.items.len() == 1,
            },
    {
        match &self.second {
            None => None,
            Some(other) => if self.primary_first {
                Some(other)
            } else {
                Some(&self.first)
            },
        }
    }
}

/// The candidates as mathematical indices.
pub open spec fn as_indices(found: Seq<usize>) -> Seq<int> {
    found.map_values(|i: usize| i as int)
}

/// The smallest rotation timestamp in the album.
fn least_of(album: &Album) -> (least: i64)
    requires
        album@.len() > 0,
    ensures
        least == least_last_shown(album@),
{
    let mut least: i64 = album.at(0).last_shown;
    let mut i: usize = 1;
    while i < album.len()
        invariant
            1 <= i <= album@.len(),
            exists|j: int| 0 <= j < i && (#[trigger] album@[j]).last_shown == least,
            forall|j: int| 0 <= j < i ==> (#[trigger] album@[j]).last_shown >= least,
        decreases album@.len() - i,
    {
        let seen = album.at(i).last_shown;
        if seen < least {
            least = seen;
        }
        i += 1;
    }
    proof {
        assert(is_least(album@, least as int));
        lemma_least_exists(album@);
    }
    least
}

/// The pictures shown at `when`, by index, in ascending order.
fn shown_at_of(album: &Album, when: i64) -> (found: Vec<usize>)
    ensures
        as_indices(found@) == matching(album@.len() as int, shown_at(album@, when as int)),
{
    let ghost keep = shown_at(album@, when as int);
    let mut found: Vec<usize> = Vec::new();
    let mut i: usize = 0;
    while i < album.len()
        invariant
            i <= album@.len(),
            keep == shown_at(album@, when as int),
            as_indices(found@) == matching(i as int, keep),
        decreases album@.len() - i,
    {
        let ghost before = found@;
        if album.at(i).last_shown == when {
            found.push(i);
            assert(as_indices(found@) =~= as_indices(before).push(i as int));
        }
        i += 1;
    }
    found
}

/// The portrait pictures other than `primary`, by index, in ascending order.
fn partners_of(album: &Album, primary: usize) -> (found: Vec<usize>)
    ensures
        as_indices(found@) == partners(album@, primary as int),
{
    let ghost keep = pairs_with(album@, primary as int);
    let mut found: Vec<usize> = Vec::new();
    let mut i: usize = 0;
    while i < album.len()
        invariant
            i <= album@.len(),
            keep == pairs_with(album@, primary as int),
            as_indices(found@) == matching(i as int, keep),
        decreases album@.len() - i,
    {
        let ghost before = found@;
        if i != primary && album.at(i).orientation == Orientation::Portrait {
            found.push(i);
            assert(as_indices(found@) =~= as_indices(before).push(i as int));
        }
        i += 1;
    }
    found
}

/// The candidate that the draw falls on.
fn pick(candidates: &Vec<usize>, draw: u64) -> (chosen: usize)
    requires
        candidates@.len() > 0,
    ensures
        chosen as int == as_indices(candidates@)[draw as int % candidates@.len() as int],
{
    let k = (draw % (candidates.len() as u64)) as usize;
    candidates[k]
}

/// Selects the next picture, or pair of portrait pictures, and stamps what
/// was selected with `now`.
///
/// The primary picture is one of those shown longest ago. A portrait
/// primary is paired with another portrait picture wherever the album holds
/// one. Only an empty album yields no selection, and nothing else changes
/// the album.
pub fn select_and_advance(album: &mut Album, now: i64, draws: Draws) -> (r: Result<
    Selection,
    SelectionError,
>)
    ensures
        old(album)@.len() == 0 ==> r == Err::<Selection, SelectionError>(
            SelectionError::SelectionFailed,
        ) && final(album)@ == old(album)@,
        old(album)@.len() > 0 ==> final(album)@ == advanced(old(album)@, now as int, draws),
        old(album)@.len() > 0 ==> (r matches Ok(selection) && selection.wf() && selection@
            == selected(old(album)@, now as int, draws)),
{
    proof {
        use_type_invariant(&*album);
    }
    if album.len() == 0 {
        return Err(SelectionError::SelectionFailed);
    }
    let ghost items = album@;
    let least = least_of(album);
    let candidates = shown_at_of(album, least);
    proof {
        lemma_least_exists(items);
        lemma_matching(items.len() as int, shown_at(items, least as int));
        let i = choose|i: int| 0 <= i < items.len() && (#[trigger] items[i]).last_shown == least;
        assert(tied(items).contains(i));
    }
    let primary = pick(&candidates, draws.primary);
    assert(primary as int == primary_index(items, draws.primary));
    let mut secondary: Option<usize> = None;
    if album.at(primary).orientation == Orientation::Portrait {
        let others = partners_of(album, primary);
        if others.len() > 0 {
            secondary = Some(pick(&others, draws.secondary));
        }
    }
    proof {
        lemma_matching(items.len() as int, pairs_with(items, primary as int));
    }
    assert(match secondary {
        Some(other) => secondary_index(items, primary as int, draws.secondary) == Some(
            other as int,
        ),
        None => secondary_index(items, primary as int, draws.secondary) == None::<int>,
    });
    album.mark_shown(primary, now);
    match secondary {
        None => {
            assert(album@ =~= advanced(items, now as int, draws));
            Ok(Selection::single(album.at(primary).clone()))
        },
        Some(other) => {
            album.mark_shown(other, now);
            assert(album@ =~= advanced(items, now as int, draws));
            let shown_primary = album.at(primary).clone();
            let shown_other = album.at(other).clone();
            if draws.order % 2 == 0 {
                Ok(Selection::paired(shown_primary, shown_other, true))
            } else {
                Ok(Selection::paired(shown_other, shown_primary, false))
            }
        },
    }
}

/// The primary picture is always one of those shown longest ago, and the
/// secondary one, where there is one, is another portrait picture.
pub proof fn lemma_selected_indices(items: Seq<MediaItemView>, draws: Draws)
    requires
        items.len() > 0,
    ensures
        tied(items).len() > 0,
        0 <= primary_index(items, draws.primary) < items.len(),
        is_least(items, items[primary_index(items, draws.primary)].last_shown),
        match secondary_index(items, primary_index(items, draws.primary), draws.secondary) {
            Some(secondary) => {
                &&& 0 <= secondary < items.len()
                &&& secondary != primary_index(items, draws.primary)
                &&& items[secondary].is_portrait()
                &&& items[primary_index(items, draws.primary)].is_portrait()
            },
            None => true,
        },
{
    lemma_least_exists(items);
    let least = least_last_shown(items);
    lemma_matching(items.len() as int, shown_at(items, least));
    let i = choose|i: int| 0 <= i < items.len() && (#[trigger] items[i]).last_shown == least;
    assert(tied(items).contains(i));
    let primary = primary_index(items, draws.primary);
    lemma_matching(items.len() as int, pairs_with(items, primary));
}

/// A selection is one picture or two distinct portrait pictures, wherever
/// the album holds each id once.
pub proof fn lemma_selected_is_well_formed(items: Seq<MediaItemView>, now: int, draws: Draws)
    requires
        items.len() > 0,
        distinct_ids(items),
    ensures
        selected(items, now, draws).wf(),
{
    lemma_selected_indices(items, draws);
}

/// A portrait picture is shown alone only where the album holds no other
/// portrait picture.
pub proof fn lemma_lone_portrait_has_no_partner(
    items: Seq<MediaItemView>,
    now: int,
    draws: Draws,
    other: int,
)
    requires
        items.len() > 0,
        selected(items, now, draws).items.len() == 1,
        selected(items, now, draws).items[0].is_portrait(),
        0 <= other < items.len(),
        other != primary_index(items, draws.primary),
    ensures
        !items[other].is_portrait(),
{
    lemma_selected_indices(items, draws);
    let primary = primary_index(items, draws.primary);
    lemma_matching(items.len() as int, pairs_with(items, primary));
    if items[other].is_portrait() {
        assert(pairs_with(items, primary)(other));
        assert(partners(items, primary).contains(other));
    }
}

/// Where one picture was shown strictly longer ago than every other, it
/// is the primary one, whatever the draw.
pub proof fn lemma_unique_least_is_primary(items: Seq<MediaItemView>, i: int, draw: u64)
    requires
        0 <= i < items.len(),
        forall|j: int|
            0 <= j < items.len() && j != i ==> (#[trigger] items[j]).last_shown
                > items[i].last_shown,
    ensures
        primary_index(items, draw) == i,
{
    let when = items[i].last_shown;
    assert(is_least(items, when)) by {
        assert forall|j: int| 0 <= j < items.len() implies (#[trigger] items[j]).last_shown
            >= when by {}
    }
    lemma_least_exists(items);
    let keep = shown_at(items, when);
    lemma_matching(items.len() as int, keep);
    let found = tied(items);
    assert(found.contains(i));
    assert forall|k: int| 0 <= k < found.len() implies #[trigger] found[k] == i by {
        assert(keep(found[k]));
    }
    if found.len() > 1 {
        assert(found[0] < found[1]);
    }
}

/// Among pictures tied at the least timestamp the draw alone decides, and
/// it treats them alike: two draws pick the same picture exactly when they
/// leave the same remainder on division by the number of tied pictures.
/// Draws that are evenly spread over the remainders therefore pick each
/// tied picture equally often.
pub proof fn lemma_draws_split_evenly_over_tied(
    items: Seq<MediaItemView>,
    draw_a: u64,
    draw_b: u64,
)
    requires
        items.len() > 0,
    ensures
        tied(items).len() > 0,
        primary_index(items, draw_a) == primary_index(items, draw_b) <==> draw_a as int % tied(
            items,
        ).len() as int == draw_b as int % tied(items).len() as int,
{
    lemma_selected_indices(items, Draws { primary: draw_a, secondary: 0, order: 0 });
    lemma_matching(items.len() as int, shown_at(items, least_last_shown(items)));
    let found = tied(items);
    let a = draw_a as int % found.len() as int;
    let b = draw_b as int % found.len() as int;
    if a < b {
        assert(found[a] < found[b]);
    } else if b < a {
        assert(found[b] < found[a]);
    }
}

/// Every picture tied at the least timestamp is the primary one for some
/// draw below the number of tied pictures.
pub proof fn lemma_every_tied_picture_has_a_draw(items: Seq<MediaItemView>, i: int)
    requires
        items.len() <= u64::MAX,
        0 <= i < items.len(),
        is_least(items, items[i].last_shown),
    ensures
        exists|draw: u64| draw < tied(items).len() && primary_index(items, draw) == i,
{
    lemma_least_exists(items);
    let keep = shown_at(items, least_last_shown(items));
    lemma_matching(items.len() as int, keep);
    let found = tied(items);
    assert(keep(i));
    assert(found.contains(i));
    let k = choose|k: int| 0 <= k < found.len() && found[k] == i;
    assert(found.len() <= items.len());
    let draw = k as u64;
    assert(draw as int % found.len() as int == k) by {
        lemma_small_mod(k as nat, found.len());
    }
    assert(primary_index(items, draw) == i);
}

/// Every portrait picture other than a portrait primary is its partner for
/// some draw, and two draws pick the same partner exactly when they leave
/// the same remainder on division by the number of such pictures.
pub proof fn lemma_draws_split_evenly_over_partners(
    items: Seq<MediaItemView>,
    primary: int,
    other: int,
    draw_a: u64,
    draw_b: u64,
)
    requires
        items.len() <= u64::MAX,
        0 <= primary < items.len(),
        0 <= other < items.len(),
        other != primary,
        items[primary].is_portrait(),
        items[other].is_portrait(),
    ensures
        partners(items, primary).len() > 0,
        exists|draw: u64|
            draw < partners(items, primary).len() && secondary_index(items, primary, draw) == Some(
                other,
            ),
        secondary_index(items, primary, draw_a) == secondary_index(items, primary, draw_b)
            <==> draw_a as int % partners(items, primary).len() as int == draw_b as int % partners(
            items,
            primary,
        ).len() as int,
{
    let keep = pairs_with(items, primary);
    lemma_matching(items.len() as int, keep);
    let found = partners(items, primary);
    assert(keep(other));
    assert(found.contains(other));
    let k = choose|k: int| 0 <= k < found.len() && found[k] == other;
    let draw = k as u64;
    assert(draw as int % found.len() as int == k) by {
        lemma_small_mod(k as nat, found.len());
    }
    assert(secondary_index(items, primary, draw) == Some(other));
    let a = draw_a as int % found.len() as int;
    let b = draw_b as int % found.len() as int;
    if a < b {
        assert(found[a] < found[b]);
    } else if b < a {
        assert(found[b] < found[a]);
    }
}

/// A selection changes nothing but the rotation timestamps of the pictures
/// it selects, which become `now`.
pub proof fn lemma_advance_touches_only_the_selected(
    items: Seq<MediaItemView>,
    now: int,
    draws: Draws,
)
    requires
        items.len() > 0,
    ensures
        advanced(items, now, draws).len() == items.len(),
        forall|i: int|
            0 <= i < items.len() && !is_selected(items, draws, i) ==> #[trigger] advanced(
                items,
                now,
                draws,
            )[i] == items[i],
        forall|i: int|
            0 <= i < items.len() && is_selected(items, draws, i) ==> #[trigger] advanced(
                items,
                now,
                draws,
            )[i] == items[i].shown_at(now),
{
}

/// Where the clock reading is later than the timestamps of the pictures
/// selected, each of these timestamps strictly increases.
pub proof fn lemma_selected_timestamps_increase(items: Seq<MediaItemView>, now: int, draws: Draws)
    requires
        items.len() > 0,
        forall|i: int|
            0 <= i < items.len() && is_selected(items, draws, i)
                ==> (#[trigger] items[i]).last_shown < now,
    ensures
        forall|i: int|
            0 <= i < items.len() && is_selected(items, draws, i) ==> (#[trigger] advanced(
                items,
                now,
                draws,
            )[i]).last_shown > items[i].last_shown,
{
    assert forall|i: int| 0 <= i < items.len() && is_selected(items, draws, i) implies (
    #[trigger] advanced(items, now, draws)[i]).last_shown > items[i].last_shown by {
        assert(items[i].last_shown < now);
    }
}

/// Where a picture that was left out is older than `now`, the selection
/// that follows takes another primary picture than this one, whatever its
/// draw.
pub proof fn lemma_next_primary_differs(
    items: Seq<MediaItemView>,
    now: int,
    draws: Draws,
    next_draw: u64,
)
    requires
        items.len() > 0,
        exists|j: int|
            0 <= j < items.len() && !is_selected(items, draws, j)
                && (#[trigger] items[j]).last_shown < now,
    ensures
        primary_index(advanced(items, now, draws), next_draw) != primary_index(
            items,
            draws.primary,
        ),
{
    let after = advanced(items, now, draws);
    let first = primary_index(items, draws.primary);
    let j = choose|j: int|
        0 <= j < items.len() && !is_selected(items, draws, j)
            && (#[trigger] items[j]).last_shown < now;
    lemma_selected_indices(items, draws);
    lemma_selected_indices(after, Draws { primary: next_draw, secondary: 0, order: 0 });
    let next = primary_index(after, next_draw);
    assert(after[j] == items[j]);
    assert(after[next].last_shown <= after[j].last_shown);
    assert(after[first].last_shown == now);
}

/// Where no picture that was left out is older than `now`, some draw
/// makes the same picture primary again: the condition of
/// `lemma_next_primary_differs` cannot be weakened.
pub proof fn lemma_next_primary_may_repeat(items: Seq<MediaItemView>, now: int, draws: Draws)
    requires
        0 < items.len() <= u64::MAX,
        forall|j: int|
            0 <= j < items.len() && !is_selected(items, draws, j)
                ==> (#[trigger] items[j]).last_shown >= now,
    ensures
        exists|next_draw: u64|
            primary_index(advanced(items, now, draws), next_draw) == primary_index(
                items,
                draws.primary,
            ),
{
    let after = advanced(items, now, draws);
    let first = primary_index(items, draws.primary);
    lemma_selected_indices(items, draws);
    assert(after[first].last_shown == now);
    assert forall|j: int| 0 <= j < after.len() implies (#[trigger] after[j]).last_shown
        >= now by {
        if !is_selected(items, draws, j) {
            assert(items[j].last_shown >= now);
        }
    }
    assert(is_least(after, now));
    lemma_every_tied_picture_has_a_draw(after, first);
}

} // verus!
