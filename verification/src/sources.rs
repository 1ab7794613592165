//! Choice and order of the files that hold the frames of a job.
//!
//! Frames are told apart by the extension of their file names, and their
//! order is that of their names, byte by byte. Nothing later in a job
//! changes this order.

use vstd::prelude::*;
use vstd::seq_lib::to_multiset_insert;
use vstd::string::*;
use vstd::utf8::encode_utf8;

verus! {

/// The dot that separates a file name from its extension.
pub const DOT: u8 = 46;

/// The kinds of file that can hold a frame.
#[derive(Debug, Clone, Copy, PartialEq, Eq)]
pub enum FrameKind {
    /// A picture, with the extension `png`.
    Png,
    /// A binary frame, with the extension `cframe`.
    Cframe,
    /// A text frame, with the extension `txt` and a name that starts
    /// with `frame_`.
    Text,
}

/// The bytes of `png`.
pub open spec fn png_extension() -> Seq<u8> {
    seq![112u8, 110u8, 103u8]
}

/// The bytes of `cframe`.
pub open spec fn cframe_extension() -> Seq<u8> {
    seq![99u8, 102u8, 114u8, 97u8, 109u8, 101u8]
}

/// The bytes of `txt`.
pub open spec fn txt_extension() -> Seq<u8> {
    seq![116u8, 120u8, 116u8]
}

/// The bytes of `frame_`.
pub open spec fn frame_prefix() -> Seq<u8> {
    seq![102u8, 114u8, 97u8, 109u8, 101u8, 95u8]
}

/// The place of the last dot of a name, or -1 where it holds none.
pub open spec fn last_dot(name: Seq<u8>) -> int
    decreases name.len(),
{
    if name.len() == 0 {
        -1
    } else if name.last() == DOT {
        name.len() - 1
    } else {
        last_dot(name.drop_last())
    }
}

/// The extension of a file name: what follows its last dot. A name
/// without a dot has none, nor has a name whose only dot is its first
/// byte, nor the name of two dots.
pub open spec fn extension_of(name: Seq<u8>) -> Option<Seq<u8>> {
    if last_dot(name) <= 0 || name == seq![DOT, DOT] {
        None
    } else {
        Some(name.skip(last_dot(name) + 1))
    }
}

/// Whether a name starts with a run of bytes.
pub open spec fn starts_with(name: Seq<u8>, prefix: Seq<u8>) -> bool {
    prefix.len() <= name.len() && name.take(prefix.len() as int) == prefix
}

/// Whether a file of this name holds a frame of this kind.
pub open spec fn is_frame_name(name: Seq<u8>, kind: FrameKind) -> bool {
    match kind {
        FrameKind::Png => extension_of(name) == Some(png_extension()),
        FrameKind::Cframe => extension_of(name) == Some(cframe_extension()),
        FrameKind::Text => extension_of(name) == Some(txt_extension()) && starts_with(
            name,
            frame_prefix(),
        ),
    }
}

/// Whether `a` comes before `b` or is equal to it from place `k` on: at
/// the first place where they differ `a` has the smaller byte, or `a`
/// ends first.
pub open spec fn ordered_from(a: Seq<u8>, b: Seq<u8>, k: int) -> bool
    decreases a.len() - k,
{
    if k < 0 || k >= a.len() {
        true
    } else if k >= b.len() {
        false
    } else if a[k] != b[k] {
        a[k] < b[k]
    } else {
        ordered_from(a, b, k + 1)
    }
}

/// Whether the name `a` does not come after the name `b`.
pub open spec fn name_le(a: Seq<char>, b: Seq<char>) -> bool {
    ordered_from(encode_utf8(a), encode_utf8(b), 0)
}

/// Whether names are in order.
pub open spec fn is_sorted(names: Seq<Seq<char>>) -> bool {
    forall|i: int, j: int| 0 <= i < j < names.len() ==> name_le(names[i], names[j])
}

/// The order of names is transitive.
pub proof fn lemma_order_transitive(a: Seq<u8>, b: Seq<u8>, c: Seq<u8>, k: int)
    requires
        0 <= k,
        ordered_from(a, b, k),
        ordered_from(b, c, k),
    ensures
        ordered_from(a, c, k),
    decreases a.len() - k,
{
    if k < a.len() && k < b.len() && k < c.len() && a[k] == b[k] && b[k] == c[k] {
        lemma_order_transitive(a, b, c, k + 1);
    }
}

/// Of two names, one does not come after the other.
pub proof fn lemma_order_total(a: Seq<u8>, b: Seq<u8>, k: int)
    requires
        0 <= k,
    ensures
        ordered_from(a, b, k) || ordered_from(b, a, k),
    decreases a.len() - k,
{
    if k < a.len() && k < b.len() && a[k] == b[k] {
        lemma_order_total(a, b, k + 1);
    }
}

/// The names of a list that are frames of a kind, in the order of the
/// list.
pub open spec fn chosen(names: Seq<Seq<char>>, kind: FrameKind) -> Seq<Seq<char>>
    decreases names.len(),
{
    if names.len() == 0 {
        Seq::empty()
    } else if is_frame_name(encode_utf8(names.last()), kind) {
        chosen(names.drop_last(), kind).push(names.last())
    } else {
        chosen(names.drop_last(), kind)
    }
}

/// The texts of a list of names.
pub open spec fn name_texts(names: Seq<String>) -> Seq<Seq<char>> {
    Seq::new(names.len(), |i: int| names[i]@)
}

/// Tells whether one name does not come after another.
pub fn name_not_after(a: &str, b: &str) -> (le: bool)
    ensures
        le == name_le(a@, b@),
{
    let x = a.as_bytes();
    let y = b.as_bytes();
    let mut k: usize = 0;
    while k < x.len() && k < y.len() && x[k] == y[k]
        invariant
            k <= x@.len(),
            k <= y@.len(),
            ordered_from(x@, y@, 0) == ordered_from(x@, y@, k as int),
        decreases x@.len() - k,
    {
        k += 1;
    }
    if k >= x.len() {
        true
    } else if k >= y.len() {
        false
    } else {
        x[k] < y[k]
    }
}

fn find_last_dot(name: &[u8]) -> (r: Option<usize>)
    ensures
        match r {
            Some(at) => at == last_dot(name@) && at < name@.len(),
            None => last_dot(name@) == -1,
        },
{
    let mut end: usize = name.len();
    proof {
        assert(name@.take(end as int) =~= name@);
    }
    while end > 0
        invariant
            end <= name@.len(),
            last_dot(name@) == last_dot(name@.take(end as int)),
        decreases end,
    {
        proof {
            assert(name@.take(end as int).drop_last() =~= name@.take(end - 1));
        }
        if name[end - 1] == DOT {
            return Some(end - 1);
        }
        end -= 1;
    }
    None
}

fn bytes_equal(a: &[u8], from: usize, b: &[u8]) -> (equal: bool)
    requires
        from <= a@.len(),
    ensures
        equal == (a@.skip(from as int) == b@),
{
    let len = a.len();
    if len - from != b.len() {
        return false;
    }
    let mut k: usize = 0;
    while k < b.len()
        invariant
            k <= b@.len(),
            len == a@.len(),
            from + b@.len() == a@.len(),
            forall|j: int| 0 <= j < k ==> a@[from + j] == b@[j],
        decreases b@.len() - k,
    {
        if a[from + k] != b[k] {
            assert(a@.skip(from as int)[k as int] != b@[k as int]);
            return false;
        }
        k += 1;
    }
    assert(a@.skip(from as int) =~= b@);
    true
}

fn has_extension(name: &[u8], extension: &[u8]) -> (yes: bool)
    ensures
        yes == (extension_of(name@) == Some(extension@)),
{
    match find_last_dot(name) {
        None => false,
        Some(at) => {
            if at == 0 {
                false
            } else if name.len() == 2 && name[0] == DOT && name[1] == DOT {
                assert(name@ =~= seq![DOT, DOT]);
                false
            } else {
                bytes_equal(name, at + 1, extension)
            }
        },
    }
}

fn has_prefix(name: &[u8], prefix: &[u8]) -> (yes: bool)
    ensures
        yes == starts_with(name@, prefix@),
{
    if prefix.len() > name.len() {
        return false;
    }
    let mut k: usize = 0;
    while k < prefix.len()
        invariant
            k <= prefix@.len(),
            prefix@.len() <= name@.len(),
            forall|j: int| 0 <= j < k ==> name@[j] == prefix@[j],
        decreases prefix@.len() - k,
    {
        if name[k] != prefix[k] {
            assert(name@.take(prefix@.len() as int)[k as int] != prefix@[k as int]);
            return false;
        }
        k += 1;
    }
    assert(name@.take(prefix@.len() as int) =~= prefix@);
    true
}

/// Tells whether a file of this name holds a frame of a kind.
pub fn is_frame_file(name: &str, kind: FrameKind) -> (yes: bool)
    ensures
        yes == is_frame_name(encode_utf8(name@), kind),
{
    let bytes = name.as_bytes();
    match kind {
        FrameKind::Png => {
            let extension: [u8; 3] = [112, 110, 103];
            assert(extension@ =~= png_extension());
            has_extension(bytes, extension.as_slice())
        },
        FrameKind::Cframe => {
            let extension: [u8; 6] = [99, 102, 114, 97, 109, 101];
            assert(extension@ =~= cframe_extension());
            has_extension(bytes, extension.as_slice())
        },
        FrameKind::Text => {
            let extension: [u8; 3] = [116, 120, 116];
            let prefix: [u8; 6] = [102, 114, 97, 109, 101, 95];
            assert(extension@ =~= txt_extension());
            assert(prefix@ =~= frame_prefix());
            has_extension(bytes, extension.as_slice()) && has_prefix(bytes, prefix.as_slice())
        },
    }
}

/// Puts a name into a list that is in order, at the place that keeps
/// the order.
fn insert_in_order(sorted: &mut Vec<String>, name: String)
    requires
        is_sorted(name_texts(old(sorted)@)),
    ensures
        is_sorted(name_texts(final(sorted)@)),
        name_texts(final(sorted)@).to_multiset() == name_texts(old(sorted)@).to_multiset().insert(
            name@,
        ),
{
    let ghost before = name_texts(sorted@);
    let mut at: usize = sorted.len();
    while at > 0 && !name_not_after(sorted[at - 1].as_str(), name.as_str())
        invariant
            at <= sorted@.len(),
            sorted@ == old(sorted)@,
            before == name_texts(sorted@),
            forall|i: int| at <= i < sorted@.len() ==> name_le(name@, before[i]),
        decreases at,
    {
        proof {
            lemma_order_total(encode_utf8(before[at - 1]), encode_utf8(name@), 0);
        }
        at -= 1;
    }
    let ghost text = name@;
    proof {
        if at > 0 {
            assert(before[at - 1] == sorted@[at - 1]@);
            assert(name_le(before[at - 1], text));
        }
    }
    sorted.insert(at, name);
    proof {
        let after = name_texts(sorted@);
        assert(after =~= before.insert(at as int, text));
        to_multiset_insert(before, at as int, text);
        assert forall|i: int, j: int| 0 <= i < j < after.len() implies name_le(
            after[i],
            after[j],
        ) by {
            if j == at {
                if i < at - 1 {
                    assert(is_sorted(before));
                    assert(name_le(before[i], before[at - 1]));
                    lemma_order_transitive(
                        encode_utf8(before[i]),
                        encode_utf8(before[at - 1]),
                        encode_utf8(text),
                        0,
                    );
                }
            }
        }
    }
}

/// Chooses from a list of file names the frames of one kind, and puts
/// them in the order of their names.
pub fn select_frames(names: &Vec<String>, kind: FrameKind) -> (frames: Vec<String>)
    ensures
        is_sorted(name_texts(frames@)),
        name_texts(frames@).to_multiset() == chosen(name_texts(names@), kind).to_multiset(),
{
    let mut frames: Vec<String> = Vec::new();
    let ghost all = name_texts(names@);
    let mut i: usize = 0;
    proof {
        assert(all.take(0) =~= Seq::<Seq<char>>::empty());
        assert(name_texts(frames@) =~= Seq::<Seq<char>>::empty());
    }
    while i < names.len()
        invariant
            i <= names@.len(),
            all == name_texts(names@),
            is_sorted(name_texts(frames@)),
            name_texts(frames@).to_multiset() == chosen(all.take(i as int), kind).to_multiset(),
        decreases names@.len() - i,
    {
        proof {
            assert(all.take(i + 1).drop_last() =~= all.take(i as int));
            assert(all.take(i + 1).last() == names@[i as int]@);
        }
        if is_frame_file(names[i].as_str(), kind) {
            proof {
                vstd::seq_lib::to_multiset_build(chosen(all.take(i as int), kind), names@[i as int]@);
            }
            insert_in_order(&mut frames, names[i].clone());
        }
        i += 1;
    }
    proof {
        assert(all.take(i as int) =~= all);
    }
    frames
}

/// Whether a list of names holds a frame of a kind.
pub open spec fn has_frame(names: Seq<Seq<char>>, kind: FrameKind) -> bool {
    exists|i: int| 0 <= i < names.len() && is_frame_name(encode_utf8(#[trigger] names[i]), kind)
}

/// A list of names holds a frame of a kind exactly if some name is chosen.
pub proof fn lemma_chosen_len(names: Seq<Seq<char>>, kind: FrameKind)
    ensures
        chosen(names, kind).len() > 0 <==> has_frame(names, kind),
        chosen(names, kind).len() <= names.len(),
    decreases names.len(),
{
    if names.len() > 0 {
        let rest = names.drop_last();
        lemma_chosen_len(rest, kind);
        if is_frame_name(encode_utf8(names.last()), kind) {
            assert(is_frame_name(encode_utf8(names[names.len() - 1]), kind));
        } else if has_frame(names, kind) {
            let i = choose|i: int|
                0 <= i < names.len() && is_frame_name(encode_utf8(#[trigger] names[i]), kind);
            assert(rest[i] == names[i]);
        } else if has_frame(rest, kind) {
            let i = choose|i: int|
                0 <= i < rest.len() && is_frame_name(encode_utf8(#[trigger] rest[i]), kind);
            assert(rest[i] == names[i]);
        }
    }
}

/// The kind of frame that a directory is rendered from: binary frames
/// where it holds any, text frames otherwise.
pub open spec fn rendered_kind(names: Seq<Seq<char>>) -> FrameKind {
    if has_frame(names, FrameKind::Cframe) {
        FrameKind::Cframe
    } else {
        FrameKind::Text
    }
}

/// Chooses the frames that a directory is rendered from, in the order of
/// their names, and tells their kind.
pub fn select_rendered_frames(names: &Vec<String>) -> (r: (Vec<String>, FrameKind))
    ensures
        r.1 == rendered_kind(name_texts(names@)),
        is_sorted(name_texts(r.0@)),
        name_texts(r.0@).to_multiset() == chosen(name_texts(names@), r.1).to_multiset(),
{
    let binary = select_frames(names, FrameKind::Cframe);
    proof {
        lemma_chosen_len(name_texts(names@), FrameKind::Cframe);
        vstd::seq_lib::to_multiset_len(name_texts(binary@));
        vstd::seq_lib::to_multiset_len(chosen(name_texts(names@), FrameKind::Cframe));
    }
    if binary.len() > 0 {
        (binary, FrameKind::Cframe)
    } else {
        (select_frames(names, FrameKind::Text), FrameKind::Text)
    }
}

} // verus!
