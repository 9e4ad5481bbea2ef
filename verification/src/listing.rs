//! Prefix enumeration: the browsing view built from one delimited listing
//! page, and the exhaustive accumulation of keys across paginated listing
//! calls.
use crate::models::{FileItem, FileItemView, Timestamp};
use crate::strutil::{last_segment, last_segment_of, trim_end_char, trim_end_str};
use vstd::prelude::*;
use vstd::string::StringExecFns;

verus! {

/// One object row of a listing page, before interpretation.
#[derive(Clone, Debug)]
pub struct ListedObject {
    pub key: Option<String>,
    pub size: Option<i64>,
    pub last_modified: Option<Timestamp>,
}

/// The mathematical content of a `ListedObject`.
pub ghost struct ListedObjectView {
    pub key: Option<Seq<char>>,
    pub size: Option<i64>,
    pub last_modified: Option<Timestamp>,
}

impl View for ListedObject {
    type V = ListedObjectView;

    open spec fn view(&self) -> ListedObjectView {
        ListedObjectView {
            key: match self.key {
                Some(ref k) => Some(k@),
                None => None,
            },
            size: self.size,
            last_modified: self.last_modified,
        }
    }
}

impl DeepView for ListedObject {
    type V = ListedObjectView;

    open spec fn deep_view(&self) -> ListedObjectView {
        self.view()
    }
}

/// The synthetic folder entry for a common prefix: the prefix itself is the
/// key, its last path segment the display name.
pub open spec fn folder_entry(p: Seq<char>) -> FileItemView {
    FileItemView {
        key: p,
        name: last_segment(trim_end_str(p, '/'), '/'),
        size: 0,
        is_folder: true,
        last_modified: None,
    }
}

/// The file entry for a listed object: display name after the last slash,
/// size defaulted to zero when the store reports none.
pub open spec fn file_entry(o: ListedObjectView, k: Seq<char>) -> FileItemView {
    FileItemView {
        key: k,
        name: last_segment(k, '/'),
        size: match o.size {
            Some(v) => v as int,
            None => 0,
        },
        is_folder: false,
        last_modified: o.last_modified,
    }
}

/// Folder entries derived from the returned common prefixes, in order;
/// absent prefix values contribute nothing.
pub open spec fn folder_entries(prefixes: Seq<Option<Seq<char>>>) -> Seq<FileItemView>
    decreases prefixes.len(),
{
    if prefixes.len() == 0 {
        Seq::<FileItemView>::empty()
    } else {
        folder_entries(prefixes.drop_last()) + (match prefixes.last() {
            Some(p) => seq![folder_entry(p)],
            None => Seq::<FileItemView>::empty(),
        })
    }
}

/// File entries from the returned objects, in order: rows without a key and
/// pure folder markers (keys ending in `/`) are invisible as files.
pub open spec fn file_entries(objects: Seq<ListedObjectView>) -> Seq<FileItemView>
    decreases objects.len(),
{
    if objects.len() == 0 {
        Seq::<FileItemView>::empty()
    } else {
        file_entries(objects.drop_last()) + (match objects.last().key {
            Some(k) => if k.len() > 0 && k.last() == '/' {
                Seq::<FileItemView>::empty()
            } else {
                seq![file_entry(objects.last(), k)]
            },
            None => Seq::<FileItemView>::empty(),
        })
    }
}

/// The browsing view of one delimited page: all folders first, then all
/// files, each in the order returned.
pub open spec fn browse_view(
    prefixes: Seq<Option<Seq<char>>>,
    objects: Seq<ListedObjectView>,
) -> Seq<FileItemView> {
    folder_entries(prefixes) + file_entries(objects)
}

/// Builds the browsing entries for one delimited listing page: a folder per
/// returned common prefix, then a file per returned object that is not a
/// folder marker.
pub fn browse_entries(prefixes: &Vec<Option<String>>, objects: &Vec<ListedObject>) -> (r: Vec<
    FileItem,
>)
    ensures
        r.deep_view() == browse_view(prefixes.deep_view(), objects.deep_view()),
{
    let ghost pdv = prefixes.deep_view();
    let ghost odv = objects.deep_view();
    let mut items: Vec<FileItem> = Vec::new();
    let mut i: usize = 0;
    proof {
        assert(pdv.subrange(0, 0) =~= Seq::<Option<Seq<char>>>::empty());
        assert(items.deep_view() =~= folder_entries(pdv.subrange(0, 0)));
    }
    while i < prefixes.len()
        invariant
            pdv == prefixes.deep_view(),
            pdv.len() == prefixes.len(),
            i <= prefixes.len(),
            items.deep_view() == folder_entries(pdv.subrange(0, i as int)),
        decreases prefixes.len() - i,
    {
        let ghost pre = pdv.subrange(0, i as int);
        match &prefixes[i] {
            Some(p) => {
                let trimmed = trim_end_char(p.as_str(), '/');
                let name = last_segment_of(trimmed, '/');
                let item = FileItem {
                    key: p.clone(),
                    name,
                    size: 0,
                    is_folder: true,
                    last_modified: None,
                };
                items.push(item);
                proof {
                    assert(pdv[i as int] == Some(p@));
                    assert(item@ == folder_entry(p@));
                }
            },
            None => {
                proof {
                    assert(pdv[i as int] is None);
                }
            },
        }
        proof {
            assert(pdv.subrange(0, i + 1).drop_last() =~= pre);
            assert(pdv.subrange(0, i + 1).last() == pdv[i as int]);
            assert(items.deep_view() =~= folder_entries(pdv.subrange(0, i + 1)));
        }
        i += 1;
    }
    proof {
        assert(pdv.subrange(0, pdv.len() as int) =~= pdv);
        assert(odv.subrange(0, 0) =~= Seq::<ListedObjectView>::empty());
        assert(items.deep_view() =~= folder_entries(pdv) + file_entries(odv.subrange(0, 0)));
    }
    let mut j: usize = 0;
    while j < objects.len()
        invariant
            pdv == prefixes.deep_view(),
            odv == objects.deep_view(),
            odv.len() == objects.len(),
            j <= objects.len(),
            items.deep_view() == folder_entries(pdv) + file_entries(odv.subrange(0, j as int)),
        decreases objects.len() - j,
    {
        let ghost pre = odv.subrange(0, j as int);
        match &objects[j].key {
            Some(k) => {
                let kn = k.unicode_len();
                let is_marker = kn > 0 && k.as_str().get_char(kn - 1) == '/';
                if !is_marker {
                    let name = last_segment_of(k.as_str(), '/');
                    let size = match objects[j].size {
                        Some(v) => v,
                        None => 0,
                    };
                    let item = FileItem {
                        key: k.clone(),
                        name,
                        size,
                        is_folder: false,
                        last_modified: objects[j].last_modified,
                    };
                    let ghost before = items.deep_view();
                    items.push(item);
                    proof {
                        assert(items.deep_view() =~~= before + seq![item@]);
                        assert(odv[j as int].key == Some(k@));
                        assert(item@ == file_entry(odv[j as int], k@));
                    }
                }
            },
            None => {},
        }
        proof {
            assert(odv.subrange(0, j + 1).drop_last() =~= pre);
            assert(odv.subrange(0, j + 1).last() == odv[j as int]);
            assert(items.deep_view() =~= folder_entries(pdv) + file_entries(
                odv.subrange(0, j + 1),
            ));
        }
        j += 1;
    }
    proof {
        assert(odv.subrange(0, odv.len() as int) =~= odv);
    }
    items
}

/// Accumulates the keys of an exhaustive, paginated enumeration under one
/// prefix. Pages are absorbed in order, never deduplicated or reordered, and
/// the keys can only be taken once the provider has reported the final page:
/// a partial listing never drives a destructive operation.
pub struct PrefixEnumeration {
    keys: Vec<String>,
    next_token: Option<String>,
    done: bool,
}

impl PrefixEnumeration {
    /// All keys absorbed so far, in arrival order.
    pub closed spec fn keys_view(self) -> Seq<Seq<char>> {
        self.keys.deep_view()
    }

    /// Whether the provider has reported that no further page exists.
    pub closed spec fn done_spec(self) -> bool {
        self.done
    }

    /// The continuation token to pass with the next listing call.
    pub closed spec fn token_spec(self) -> Option<Seq<char>> {
        match self.next_token {
            Some(ref t) => Some(t@),
            None => None,
        }
    }

    /// A fresh enumeration: nothing absorbed, first page still owed.
    pub fn new() -> (r: Self)
        ensures
            r.keys_view() == Seq::<Seq<char>>::empty(),
            !r.done_spec(),
            r.token_spec() is None,
    {
        let r = PrefixEnumeration { keys: Vec::new(), next_token: None, done: false };
        proof {
            assert(r.keys_view() =~= Seq::<Seq<char>>::empty());
        }
        r
    }

    /// Whether enumeration is complete.
    pub fn is_done(&self) -> (r: bool)
        ensures
            r == self.done_spec(),
    {
        self.done
    }

    /// The token for the next page, cloned for the caller's request.
    pub fn current_token(&self) -> (r: Option<String>)
        ensures
            (match r {
                Some(ref t) => Some(t@),
                None => None::<Seq<char>>,
            }) == self.token_spec(),
    {
        match &self.next_token {
            Some(t) => Some(t.clone()),
            None => None,
        }
    }

    /// Absorbs one listing page: appends its keys in order and records
    /// whether and where the enumeration continues.
    pub fn absorb_page(
        &mut self,
        page_keys: Vec<String>,
        is_truncated: bool,
        next_continuation: Option<String>,
    )
        requires
            !old(self).done_spec(),
        ensures
            final(self).keys_view() == old(self).keys_view() + page_keys.deep_view(),
            final(self).done_spec() == !is_truncated,
            final(self).token_spec() == (if is_truncated {
                match next_continuation {
                    Some(ref t) => Some(t@),
                    None => None::<Seq<char>>,
                }
            } else {
                None::<Seq<char>>
            }),
    {
        let ghost old_keys = self.keys.deep_view();
        let mut page = page_keys;
        let ghost page_dv = page.deep_view();
        self.keys.append(&mut page);
        if is_truncated {
            self.next_token = next_continuation;
        } else {
            self.next_token = None;
            self.done = true;
        }
        proof {
            assert(self.keys.deep_view() =~~= old_keys + page_dv);
        }
    }

    /// The number of keys enumerated so far.
    pub fn key_count(&self) -> (r: usize)
        ensures
            r == self.keys_view().len(),
    {
        self.keys.len()
    }

    /// Hands out the complete key list. Only a finished enumeration can be
    /// consumed, so every destructive caller sees the exhaustive set.
    pub fn into_keys(self) -> (r: Vec<String>)
        requires
            self.done_spec(),
        ensures
            r.deep_view() == self.keys_view(),
    {
        self.keys
    }
}

} // verus!
