//! Stored pictures and the album that holds them.

use vstd::prelude::*;

verus! {

/// How a stored picture is meant to be hung.
#[derive(Clone, Copy, Debug, PartialEq, Eq, Structural)]
pub enum Orientation {
    /// Fills the whole canvas.
    Landscape,
    /// Fills half the canvas width and its full height.
    Portrait,
}

/// One stored picture.
#[derive(Debug, PartialEq, Eq)]
pub struct MediaItem {
    /// Key of the picture in the store.
    pub id: String,
    /// Where the picture came from.
    pub product_url: String,
    /// When the picture was last put on a display, in seconds.
    pub last_shown: i64,
    /// Whether the picture fills the canvas or half of its width.
    pub orientation: Orientation,
    /// Packed pixels, two to a byte, row after row.
    pub pixels: Vec<u8>,
}

/// What a stored picture is, as mathematical values.
pub struct MediaItemView {
    pub id: Seq<char>,
    pub product_url: Seq<char>,
    pub last_shown: int,
    pub orientation: Orientation,
    pub pixels: Seq<u8>,
}

impl View for MediaItem {
    type V = MediaItemView;

    open spec fn view(&self) -> MediaItemView {
        MediaItemView {
            id: self.id@,
            product_url: self.product_url@,
            last_shown: self.last_shown as int,
            orientation: self.orientation,
            pixels: self.pixels@,
        }
    }
}

impl Clone for MediaItem {
    fn clone(&self) -> (copy: Self)
        ensures
            copy@ == self@,
    {
        MediaItem {
            id: self.id.clone(),
            product_url: self.product_url.clone(),
            last_shown: self.last_shown,
            orientation: self.orientation,
            pixels: self.pixels.clone(),
        }
    }
}

impl MediaItemView {
    /// This picture with its rotation timestamp set to `now`.
    pub open spec fn shown_at(self, now: int) -> MediaItemView {
        MediaItemView { last_shown: now, ..self }
    }

    pub open spec fn is_portrait(self) -> bool {
        self.orientation == Orientation::Portrait
    }
}

/// No two pictures of `items` share an id.
pub open spec fn distinct_ids(items: Seq<MediaItemView>) -> bool {
    forall|i: int, j: int|
        0 <= i < j < items.len() ==> (#[trigger] items[i]).id != (#[trigger] items[j]).id
}

/// Why a picture was not taken into an album.
#[derive(Clone, Copy, Debug, PartialEq, Eq, Structural)]
pub enum AlbumError {
    /// The album already holds a picture with that id.
    DuplicateId,
}

/// The stored pictures, each under its own id.
pub struct Album {
    items: Vec<MediaItem>,
}

impl View for Album {
    type V = Seq<MediaItemView>;

    closed spec fn view(&self) -> Seq<MediaItemView> {
        self.items@.map_values(|item: MediaItem| item@)
    }
}

impl Album {
    /// What holds of every album: each id occurs once.
    #[verifier::type_invariant]
    pub open spec fn wf(&self) -> bool {
        distinct_ids(self@)
    }

    /// An album without pictures.
    pub fn new() -> (album: Self)
        ensures
            album@ == Seq::<MediaItemView>::empty(),
    {
        Album { items: Vec::new() }
    }

    /// The number of pictures.
    pub fn len(&self) -> (n: usize)
        ensures
            n == self@.len(),
    {
        self.items.len()
    }

    /// The picture at `index`, if there is one.
    pub fn get(&self, index: usize) -> (item: Option<&MediaItem>)
        ensures
            match item {
                Some(found) => index < self@.len() && found@ == self@[index as int],
                None => index >= self@.len(),
            },
    {
        if index < self.items.len() {
            Some(&self.items[index])
        } else {
            None
        }
    }

    /// The picture at `index`.
    pub(crate) fn at(&self, index: usize) -> (item: &MediaItem)
        requires
            index < self@.len(),
        ensures
            item@ == self@[index as int],
    {
        &self.items[index]
    }

    /// The place of the picture with the given id, if the album holds it.
    /// No other place holds that id.
    pub fn position(&self, id: &String) -> (place: Option<usize>)
        ensures
            match place {
                Some(i) => i < self@.len() && forall|j: int|
                    0 <= j < self@.len() ==> ((#[trigger] self@[j]).id == id@ <==> j == i),
                None => forall|i: int| 0 <= i < self@.len() ==> (#[trigger] self@[i]).id != id@,
            },
    {
        proof {
            use_type_invariant(self);
        }
        let mut i: usize = 0;
        while i < self.items.len()
            invariant
                i <= self.items.len(),
                distinct_ids(self@),
                forall|j: int| 0 <= j < i ==> (#[trigger] self@[j]).id != id@,
            decreases self.items.len() - i,
        {
            if self.items[i].id == *id {
                assert forall|j: int| 0 <= j < self@.len() implies ((#[trigger] self@[j]).id == id@
                    <==> j == i) by {
                    if j < i {
                        assert(self@[j].id != self@[i as int].id);
                    } else if i < j {
                        assert(self@[i as int].id != self@[j].id);
                    }
                }
                return Some(i);
            }
            i += 1;
        }
        None
    }

    /// Adds a picture, unless one with the same id is already there.
    pub fn insert(&mut self, item: MediaItem) -> (r: Result<(), AlbumError>)
        ensures
            match r {
                Ok(_) => {
                    &&& forall|i: int|
                        0 <= i < old(self)@.len() ==> (#[trigger] old(self)@[i]).id != item@.id
                    &&& final(self)@ == old(self)@.push(item@)
                },
                Err(e) => {
                    &&& e == AlbumError::DuplicateId
                    &&& exists|i: int|
                        0 <= i < old(self)@.len() && (#[trigger] old(self)@[i]).id == item@.id
                    &&& final(self)@ == old(self)@
                },
            },
    {
        proof {
            use_type_invariant(&*self);
        }
        match self.position(&item.id) {
            Some(place) => {
                assert(self@[place as int].id == item@.id);
                Err(AlbumError::DuplicateId)
            },
            None => {
                // The pictures are taken out, extended and put back, so that the
                // album holds each id once at every moment.
                let mut items: Vec<MediaItem> = Vec::new();
                core::mem::swap(&mut self.items, &mut items);
                items.push(item);
                proof {
                    let after = items@.map_values(|item: MediaItem| item@);
                    assert(after =~= old(self)@.push(item@));
                    assert(distinct_ids(after));
                }
                core::mem::swap(&mut self.items, &mut items);
                Ok(())
            },
        }
    }

    /// Sets the rotation timestamp of the picture at `index`.
    pub(crate) fn mark_shown(&mut self, index: usize, now: i64)
        requires
            index < old(self)@.len(),
        ensures
            final(self)@ == old(self)@.update(
                index as int,
                old(self)@[index as int].shown_at(now as int),
            ),
    {
        proof {
            use_type_invariant(&*self);
        }
        let mut items: Vec<MediaItem> = Vec::new();
        core::mem::swap(&mut self.items, &mut items);
        items[index].last_shown = now;
        proof {
            let after = items@.map_values(|item: MediaItem| item@);
            assert(after =~= old(self)@.update(
                index as int,
                old(self)@[index as int].shown_at(now as int),
            ));
            assert forall|i: int, j: int| 0 <= i < j < after.len() implies (#[trigger] after[i]).id
                != (#[trigger] after[j]).id by {
                assert(after[i].id == old(self)@[i].id);
                assert(after[j].id == old(self)@[j].id);
            }
        }
        core::mem::swap(&mut self.items, &mut items);
    }
}

} // verus!
