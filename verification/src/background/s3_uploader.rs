//! Which snapshot to upload.
//!
//! The uploader looks at the names in the snapshot directory at intervals.
//! The newest snapshot is the one whose name comes last in byte order. When
//! the newest is another than last time, it is remembered, and handed out
//! for upload where uploads are switched on.

use crate::text::str_eq;
use vstd::prelude::*;
use vstd::utf8::encode_utf8;

verus! {

/// `a` comes strictly before `b` in byte order.
pub open spec fn bytes_lt(a: Seq<u8>, b: Seq<u8>) -> bool
    decreases a.len(),
{
    if b.len() == 0 {
        false
    } else if a.len() == 0 {
        true
    } else if a[0] != b[0] {
        a[0] < b[0]
    } else {
        bytes_lt(a.skip(1), b.skip(1))
    }
}

/// Whether a file name is a snapshot's: it ends in `.bin`, with something
/// before the dot.
pub open spec fn is_snapshot_name(bytes: Seq<u8>) -> bool {
    bytes.len() > 4 && bytes.skip(bytes.len() - 4) == seq![0x2Eu8, 0x62u8, 0x69u8, 0x6Eu8]
}

/// `i` names the newest snapshot among `names`: it is a snapshot, and no
/// snapshot's name comes after it.
pub open spec fn is_newest(names: Seq<Seq<u8>>, i: int) -> bool {
    &&& 0 <= i < names.len()
    &&& is_snapshot_name(names[i])
    &&& forall|j: int|
        0 <= j < names.len() && is_snapshot_name(#[trigger] names[j]) ==> !bytes_lt(
            names[i],
            names[j],
        )
}

/// The names of a list as bytes.
pub open spec fn name_bytes(names: Seq<String>) -> Seq<Seq<u8>> {
    Seq::new(names.len(), |i: int| encode_utf8(names[i]@))
}

fn less(a: &[u8], b: &[u8]) -> (r: bool)
    ensures
        r == bytes_lt(a@, b@),
{
    let mut i: usize = 0;
    assert(a@.skip(0) =~= a@ && b@.skip(0) =~= b@);
    while i < a.len() && i < b.len()
        invariant
            i <= a@.len(),
            i <= b@.len(),
            bytes_lt(a@, b@) == bytes_lt(a@.skip(i as int), b@.skip(i as int)),
        decreases a@.len() - i,
    {
        if a[i] != b[i] {
            return a[i] < b[i];
        }
        assert(a@.skip(i as int).skip(1) =~= a@.skip(i + 1));
        assert(b@.skip(i as int).skip(1) =~= b@.skip(i + 1));
        i = i + 1;
    }
    i < b.len()
}

fn has_bin_extension(name: &[u8]) -> (r: bool)
    ensures
        r == is_snapshot_name(name@),
{
    let n: usize = name.len();
    if n <= 4 {
        return false;
    }
    let ghost tail = name@.skip(n - 4);
    assert(tail[0] == name@[n - 4] && tail[1] == name@[n - 3] && tail[2] == name@[n - 2] && tail[3]
        == name@[n - 1]);
    let r = name[n - 4] == 0x2E && name[n - 3] == 0x62 && name[n - 2] == 0x69 && name[n - 1]
        == 0x6E;
    if r {
        assert(tail =~= seq![0x2Eu8, 0x62u8, 0x69u8, 0x6Eu8]);
    }
    r
}

/// The place of the newest snapshot among `names`, if there is a snapshot.
pub fn latest_snapshot(names: &Vec<String>) -> (r: Option<usize>)
    ensures
        match r {
            Some(i) => is_newest(name_bytes(names@), i as int),
            None => forall|j: int|
                0 <= j < names@.len() ==> !is_snapshot_name(#[trigger] name_bytes(names@)[j]),
        },
{
    let ghost all = name_bytes(names@);
    let mut best: Option<usize> = None;
    let mut i: usize = 0;
    while i < names.len()
        invariant
            i <= names@.len(),
            all == name_bytes(names@),
            match best {
                Some(b) => b < i && is_snapshot_name(all[b as int]) && forall|j: int|
                    0 <= j < i && is_snapshot_name(#[trigger] all[j]) ==> !bytes_lt(
                        all[b as int],
                        all[j],
                    ),
                None => forall|j: int| 0 <= j < i ==> !is_snapshot_name(#[trigger] all[j]),
            },
        decreases names@.len() - i,
    {
        let name = names[i].as_str().as_bytes();
        assert(name@ == all[i as int]);
        if has_bin_extension(name) {
            match best {
                Some(b) => {
                    let held = names[b].as_str().as_bytes();
                    assert(held@ == all[b as int]);
                    if less(held, name) {
                        proof {
                            assert forall|j: int|
                                0 <= j < i + 1 && is_snapshot_name(
                                    #[trigger] all[j],
                                ) implies !bytes_lt(all[i as int], all[j]) by {
                                if j < i && bytes_lt(all[i as int], all[j]) {
                                    lemma_bytes_lt_chain(all[b as int], all[i as int], all[j]);
                                }
                                if j == i {
                                    lemma_bytes_lt_irreflexive(all[i as int]);
                                }
                            }
                        }
                        best = Some(i);
                    }
                },
                None => {
                    proof {
                        lemma_bytes_lt_irreflexive(all[i as int]);
                    }
                    best = Some(i);
                },
            }
        }
        i = i + 1;
    }
    best
}

/// No name comes before itself.
proof fn lemma_bytes_lt_irreflexive(a: Seq<u8>)
    ensures
        !bytes_lt(a, a),
    decreases a.len(),
{
    if a.len() > 0 {
        lemma_bytes_lt_irreflexive(a.skip(1));
    }
}

/// Byte order is transitive.
proof fn lemma_bytes_lt_chain(a: Seq<u8>, b: Seq<u8>, c: Seq<u8>)
    requires
        bytes_lt(a, b),
        bytes_lt(b, c),
    ensures
        bytes_lt(a, c),
    decreases a.len(),
{
    if a.len() > 0 && b.len() > 0 && c.len() > 0 {
        if a[0] == b[0] && b[0] == c[0] {
            lemma_bytes_lt_chain(a.skip(1), b.skip(1), c.skip(1));
        }
    }
}

pub struct S3Uploader {
    bucket: String,
    upload_after_snapshot: bool,
    last_snapshot: String,
    running: bool,
}

impl S3Uploader {
    pub closed spec fn bucket_name(&self) -> Seq<char> {
        self.bucket@
    }

    pub closed spec fn uploads(&self) -> bool {
        self.upload_after_snapshot
    }

    /// The name of the snapshot seen newest last time; empty before the
    /// first.
    pub closed spec fn last_seen(&self) -> Seq<char> {
        self.last_snapshot@
    }

    pub closed spec fn is_running(&self) -> bool {
        self.running
    }

    pub fn new(bucket: String, upload_after_snapshot: bool) -> (u: Self)
        ensures
            u.bucket_name() == bucket@,
            u.uploads() == upload_after_snapshot,
            u.last_seen() == Seq::<char>::empty(),
            u.is_running(),
    {
        S3Uploader { bucket, upload_after_snapshot, last_snapshot: String::new(), running: true }
    }

    pub fn bucket(&self) -> (b: &str)
        ensures
            b@ == self.bucket_name(),
    {
        self.bucket.as_str()
    }

    pub fn running(&self) -> (r: bool)
        ensures
            r == self.is_running(),
    {
        self.running
    }

    /// Looks at the names in the snapshot directory and says which file to
    /// upload now, if any: the newest snapshot, where it is another than
    /// the one seen last time and uploads are switched on. The newest
    /// snapshot is remembered either way.
    pub fn next_upload(&mut self, names: &Vec<String>) -> (r: Option<String>)
        ensures
            final(self).bucket_name() == old(self).bucket_name(),
            final(self).uploads() == old(self).uploads(),
            final(self).is_running() == old(self).is_running(),
            (forall|j: int|
                0 <= j < names@.len() ==> !is_snapshot_name(#[trigger] name_bytes(names@)[j]))
                ==> r is None && final(self).last_seen() == old(self).last_seen(),
            (exists|j: int|
                0 <= j < names@.len() && is_snapshot_name(#[trigger] name_bytes(names@)[j]))
                ==> exists|i: int|
                #![trigger names@[i]]
                {
                    &&& is_newest(name_bytes(names@), i)
                    &&& final(self).last_seen() == names@[i]@
                    &&& match r {
                        Some(name) => name@ == names@[i]@ && old(self).uploads() && names@[i]@
                            != old(self).last_seen(),
                        None => !old(self).uploads() || names@[i]@ == old(self).last_seen(),
                    }
                },
    {
        match latest_snapshot(names) {
            Some(i) => {
                if str_eq(names[i].as_str(), self.last_snapshot.as_str()) {
                    proof {
                        assert(is_newest(name_bytes(names@), i as int));
                    }
                    None
                } else {
                    self.last_snapshot = names[i].clone();
                    if self.upload_after_snapshot {
                        Some(names[i].clone())
                    } else {
                        None
                    }
                }
            },
            None => None,
        }
    }

    pub fn shutdown(&mut self)
        ensures
            !final(self).is_running(),
            final(self).bucket_name() == old(self).bucket_name(),
            final(self).uploads() == old(self).uploads(),
            final(self).last_seen() == old(self).last_seen(),
    {
        self.running = false;
    }
}

} // verus!
