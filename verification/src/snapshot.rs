//! The snapshot of a built site: its directories as git trees and its files
//! as git blobs.
//!
//! Entries of one directory are kept in git's canonical order, so that the
//! same content always gives the same tree id.

use vstd::prelude::*;
use gix::objs::{tree, Tree, WriteTo};
use vstd::slice::slice_to_vec;
use vstd::string::*;
use vstd::utf8::encode_utf8;
use crate::text::same_text;

verus! {

/// The kind of object a tree entry points at.
#[derive(Debug, Clone, Copy, PartialEq, Eq, Structural)]
pub enum EntryKind {
    /// A file.
    Blob,
    /// A directory.
    Tree,
}

/// One entry of a tree: a name, a kind, and the id of the object.
#[derive(Debug, Clone, PartialEq, Eq)]
pub struct TreeEntry {
    /// Name of the file or directory.
    pub name: String,
    /// Whether it is a file or a directory.
    pub kind: EntryKind,
    /// Id of the blob or tree.
    pub id: Vec<u8>,
}

/// The mathematical value of a tree entry.
pub struct EntryModel {
    pub name: Seq<char>,
    pub kind: EntryKind,
    pub id: Seq<u8>,
}

impl View for TreeEntry {
    type V = EntryModel;

    open spec fn view(&self) -> EntryModel {
        EntryModel { name: self.name@, kind: self.kind, id: self.id@ }
    }
}

/// The entries in `entries`, as mathematical values.
pub open spec fn entry_views(entries: Seq<TreeEntry>) -> Seq<EntryModel> {
    entries.map_values(|e: TreeEntry| e@)
}

/// The bytes an entry is ordered by: those of its name, followed by `/`
/// where it is a directory.
pub open spec fn sort_key(e: EntryModel) -> Seq<u8> {
    if e.kind == EntryKind::Tree {
        encode_utf8(e.name).push(47u8)
    } else {
        encode_utf8(e.name)
    }
}

/// Byte-wise lexicographic order: `a` comes before `b` or equals it.
pub open spec fn lex_le(a: Seq<u8>, b: Seq<u8>) -> bool
    decreases a.len(),
{
    if a.len() == 0 {
        true
    } else if b.len() == 0 {
        false
    } else if a[0] != b[0] {
        a[0] < b[0]
    } else {
        lex_le(a.drop_first(), b.drop_first())
    }
}

/// The canonical order of entries: by their sort keys.
pub open spec fn entry_le(a: EntryModel, b: EntryModel) -> bool {
    lex_le(sort_key(a), sort_key(b))
}

/// Tells whether each entry comes before its successor or equals it.
pub open spec fn git_ordered(entries: Seq<EntryModel>) -> bool {
    forall|i: int, j: int| 0 <= i < j < entries.len() ==> entry_le(entries[i], entries[j])
}

/// `sorted` with `e` put after the last entry that does not come after it.
pub open spec fn inserted(sorted: Seq<EntryModel>, e: EntryModel) -> Seq<EntryModel>
    decreases sorted.len(),
{
    if sorted.len() == 0 {
        seq![e]
    } else if entry_le(sorted.last(), e) {
        sorted.push(e)
    } else {
        inserted(sorted.drop_last(), e).push(sorted.last())
    }
}

/// The entries in canonical order; entries with equal keys keep their order.
pub open spec fn git_sorted(entries: Seq<EntryModel>) -> Seq<EntryModel>
    decreases entries.len(),
{
    if entries.len() == 0 {
        entries
    } else {
        inserted(git_sorted(entries.drop_last()), entries.last())
    }
}

/// Any two byte strings are comparable.
pub proof fn lemma_lex_total(a: Seq<u8>, b: Seq<u8>)
    ensures
        lex_le(a, b) || lex_le(b, a),
    decreases a.len(),
{
    if a.len() > 0 && b.len() > 0 && a[0] == b[0] {
        lemma_lex_total(a.drop_first(), b.drop_first());
    }
}

/// The lexicographic order is transitive.
pub proof fn lemma_lex_transitive(a: Seq<u8>, b: Seq<u8>, c: Seq<u8>)
    requires
        lex_le(a, b),
        lex_le(b, c),
    ensures
        lex_le(a, c),
    decreases a.len(),
{
    if a.len() > 0 && b.len() > 0 && c.len() > 0 && a[0] == b[0] && b[0] == c[0] {
        lemma_lex_transitive(a.drop_first(), b.drop_first(), c.drop_first());
    }
}

/// Inserting into ordered entries keeps them ordered, and keeps every entry.
pub proof fn lemma_inserted(sorted: Seq<EntryModel>, e: EntryModel)
    requires
        git_ordered(sorted),
    ensures
        git_ordered(inserted(sorted, e)),
        inserted(sorted, e).to_multiset() == sorted.to_multiset().insert(e),
        inserted(sorted, e).len() == sorted.len() + 1,
    decreases sorted.len(),
{
    broadcast use vstd::seq_lib::group_to_multiset_ensures;

    let out = inserted(sorted, e);
    if sorted.len() == 0 {
        assert(sorted =~= Seq::<EntryModel>::empty());
        assert(out =~= Seq::<EntryModel>::empty().push(e));
    } else if entry_le(sorted.last(), e) {
        assert forall|i: int, j: int| 0 <= i < j < out.len() implies entry_le(out[i], out[j]) by {
            if j == sorted.len() && i < sorted.len() - 1 {
                assert(entry_le(sorted[i], sorted[sorted.len() - 1]));
                lemma_lex_transitive(sort_key(sorted[i]), sort_key(sorted.last()), sort_key(e));
            }
        }
    } else {
        let head = sorted.drop_last();
        let last = sorted.last();
        assert(git_ordered(head));
        lemma_inserted(head, e);
        let mid = inserted(head, e);
        lemma_lex_total(sort_key(last), sort_key(e));
        assert(sorted =~= head.push(last));
        assert forall|i: int, j: int| 0 <= i < j < out.len() implies entry_le(out[i], out[j]) by {
            if j == out.len() - 1 {
                assert(mid.to_multiset().count(mid[i]) > 0);
                if mid[i] == e {
                } else {
                    assert(head.to_multiset().count(mid[i]) > 0);
                    assert(head.contains(mid[i]));
                    let k = choose|k: int| 0 <= k < head.len() && head[k] == mid[i];
                    assert(entry_le(sorted[k], sorted[sorted.len() - 1]));
                }
            } else {
                assert(entry_le(mid[i], mid[j]));
            }
        }
        assert(out.to_multiset() =~= sorted.to_multiset().insert(e));
    }
}

/// The canonical order is an order, and sorting keeps every entry: the
/// result is ordered and holds the entries of the input, each as often.
pub proof fn lemma_git_sorted(entries: Seq<EntryModel>)
    ensures
        git_ordered(git_sorted(entries)),
        git_sorted(entries).to_multiset() == entries.to_multiset(),
        git_sorted(entries).len() == entries.len(),
    decreases entries.len(),
{
    broadcast use vstd::seq_lib::group_to_multiset_ensures;

    if entries.len() > 0 {
        lemma_git_sorted(entries.drop_last());
        lemma_inserted(git_sorted(entries.drop_last()), entries.last());
        assert(entries =~= entries.drop_last().push(entries.last()));
    }
}

/// Byte strings that come before each other are the same.
pub proof fn lemma_lex_antisymmetric(a: Seq<u8>, b: Seq<u8>)
    requires
        lex_le(a, b),
        lex_le(b, a),
    ensures
        a == b,
    decreases a.len(),
{
    if a.len() == 0 {
        assert(a =~= b);
    } else {
        lemma_lex_antisymmetric(a.drop_first(), b.drop_first());
        assert(a =~= seq![a[0]] + a.drop_first());
        assert(b =~= seq![b[0]] + b.drop_first());
    }
}

/// Tells whether no two entries are ordered by the same bytes: no two
/// files and no two directories have the same name.
pub open spec fn distinct_keys(entries: Seq<EntryModel>) -> bool {
    forall|i: int, j: int|
        0 <= i < j < entries.len() ==> sort_key(#[trigger] entries[i]) != sort_key(
            #[trigger] entries[j],
        )
}

/// There is one canonical order: two ordered sequences of the same entries,
/// no two of them with the same key, are the same sequence.
pub proof fn lemma_canonical_order_is_unique(s: Seq<EntryModel>, t: Seq<EntryModel>)
    requires
        git_ordered(s),
        git_ordered(t),
        s.to_multiset() == t.to_multiset(),
        distinct_keys(s),
    ensures
        s == t,
    decreases s.len(),
{
    broadcast use vstd::seq_lib::group_to_multiset_ensures;

    assert(s.len() == s.to_multiset().len());
    assert(t.len() == t.to_multiset().len());
    if s.len() == 0 {
        assert(s =~= t);
    } else {
        let x = s.last();
        let y = t.last();
        assert(t.contains(y)) by {
            assert(t[t.len() - 1] == y);
        }
        assert(s.to_multiset().count(y) > 0);
        assert(s.contains(y));
        let i = choose|i: int| 0 <= i < s.len() && s[i] == y;
        assert(s.contains(x)) by {
            assert(s[s.len() - 1] == x);
        }
        assert(t.to_multiset().count(x) > 0);
        assert(t.contains(x));
        let j = choose|j: int| 0 <= j < t.len() && t[j] == x;
        if i < s.len() - 1 {
            assert(entry_le(s[i], s[s.len() - 1]));
            if j < t.len() - 1 {
                assert(entry_le(t[j], t[t.len() - 1]));
            } else {
                lemma_lex_total(sort_key(x), sort_key(x));
            }
            lemma_lex_antisymmetric(sort_key(y), sort_key(x));
            assert(sort_key(s[i]) == sort_key(s[s.len() - 1]));
            assert(false);
        }
        assert(x == y);
        let s1 = s.drop_last();
        let t1 = t.drop_last();
        assert(s =~= s1.push(x));
        assert(t =~= t1.push(x));
        assert(s1.to_multiset().insert(x) =~= s.to_multiset());
        assert(t1.to_multiset().insert(x) =~= t.to_multiset());
        assert(s1.to_multiset() =~= t1.to_multiset()) by {
            assert forall|v: EntryModel| s1.to_multiset().count(v) == t1.to_multiset().count(
                v,
            ) by {
                assert(s1.to_multiset().insert(x).count(v) == t1.to_multiset().insert(x).count(v));
            }
        }
        assert(git_ordered(s1)) by {
            assert forall|a: int, b: int| 0 <= a < b < s1.len() implies entry_le(s1[a], s1[b]) by {
                assert(entry_le(s[a], s[b]));
            }
        }
        assert(git_ordered(t1)) by {
            assert forall|a: int, b: int| 0 <= a < b < t1.len() implies entry_le(t1[a], t1[b]) by {
                assert(entry_le(t[a], t[b]));
            }
        }
        assert(distinct_keys(s1)) by {
            assert forall|a: int, b: int| 0 <= a < b < s1.len() implies sort_key(
                #[trigger] s1[a],
            ) != sort_key(#[trigger] s1[b]) by {
                assert(sort_key(s[a]) != sort_key(s[b]));
            }
        }
        lemma_canonical_order_is_unique(s1, t1);
        assert(s =~= t);
    }
}

/// Entries with distinct keys keep distinct keys in any order.
pub proof fn lemma_distinct_keys_in_any_order(a: Seq<EntryModel>, s: Seq<EntryModel>)
    requires
        s.to_multiset() == a.to_multiset(),
        distinct_keys(a),
    ensures
        distinct_keys(s),
{
    broadcast use vstd::seq_lib::group_to_multiset_ensures;

    assert(a.no_duplicates()) by {
        assert forall|i: int, j: int| 0 <= i < a.len() && 0 <= j < a.len() && i != j implies a[i]
            != a[j] by {
            if i < j {
                assert(sort_key(a[i]) != sort_key(a[j]));
            } else {
                assert(sort_key(a[j]) != sort_key(a[i]));
            }
        }
    }
    a.lemma_multiset_has_no_duplicates();
    s.lemma_multiset_has_no_duplicates_conv();
    assert forall|i: int, j: int| 0 <= i < j < s.len() implies sort_key(#[trigger] s[i])
        != sort_key(#[trigger] s[j]) by {
        assert(s[i] != s[j]);
        assert(s.contains(s[i]));
        assert(s.contains(s[j]));
        assert(a.to_multiset().count(s[i]) > 0);
        assert(a.to_multiset().count(s[j]) > 0);
        assert(a.contains(s[i]));
        assert(a.contains(s[j]));
        let p = choose|p: int| 0 <= p < a.len() && a[p] == s[i];
        let q = choose|q: int| 0 <= q < a.len() && a[q] == s[j];
        if p < q {
            assert(sort_key(a[p]) != sort_key(a[q]));
        } else if q < p {
            assert(sort_key(a[q]) != sort_key(a[p]));
        }
    }
}

/// The order in which a directory is listed does not matter: listings that
/// hold the same entries, no two of them with the same key, are put in the
/// same canonical order, and so give the same tree.
pub proof fn lemma_listing_order_does_not_matter(a: Seq<EntryModel>, b: Seq<EntryModel>)
    requires
        a.to_multiset() == b.to_multiset(),
        distinct_keys(a),
    ensures
        git_sorted(a) == git_sorted(b),
        tree_hash(git_sorted(a)) == tree_hash(git_sorted(b)),
{
    lemma_git_sorted(a);
    lemma_git_sorted(b);
    lemma_distinct_keys_in_any_order(a, git_sorted(a));
    lemma_canonical_order_is_unique(git_sorted(a), git_sorted(b));
}

/// Where ordered entries take a new one: after the last entry that does not
/// come after it.
pub proof fn lemma_inserted_at(sorted: Seq<EntryModel>, e: EntryModel, j: int)
    requires
        0 <= j <= sorted.len(),
        forall|k: int| j <= k < sorted.len() ==> !entry_le(#[trigger] sorted[k], e),
        j > 0 ==> entry_le(sorted[j - 1], e),
    ensures
        inserted(sorted, e) == sorted.insert(j, e),
    decreases sorted.len(),
{
    if sorted.len() == 0 {
        assert(sorted.insert(j, e) =~= seq![e]);
    } else if j == sorted.len() {
        assert(sorted.insert(j, e) =~= sorted.push(e));
    } else {
        assert(!entry_le(sorted[sorted.len() - 1], e));
        let head = sorted.drop_last();
        assert forall|k: int| j <= k < head.len() implies !entry_le(#[trigger] head[k], e) by {
            assert(head[k] == sorted[k]);
        }
        lemma_inserted_at(head, e, j);
        assert(sorted.insert(j, e) =~= head.insert(j, e).push(sorted.last()));
    }
}

/// Tells whether `a` comes before `b` or equals it, byte by byte.
pub fn bytes_le(a: &Vec<u8>, b: &Vec<u8>) -> (le: bool)
    ensures
        le == lex_le(a@, b@),
{
    let mut i: usize = 0;
    assert(a@.subrange(0, a.len() as int) =~= a@);
    assert(b@.subrange(0, b.len() as int) =~= b@);
    while i < a.len() && i < b.len() && a[i] == b[i]
        invariant
            i <= a.len(),
            i <= b.len(),
            lex_le(a@, b@) == lex_le(
                a@.subrange(i as int, a.len() as int),
                b@.subrange(i as int, b.len() as int),
            ),
        decreases a.len() - i,
    {
        assert(a@.subrange(i as int, a.len() as int).drop_first() =~= a@.subrange(
            i + 1,
            a.len() as int,
        ));
        assert(b@.subrange(i as int, b.len() as int).drop_first() =~= b@.subrange(
            i + 1,
            b.len() as int,
        ));
        i = i + 1;
    }
    if i >= a.len() {
        true
    } else if i >= b.len() {
        false
    } else {
        a[i] < b[i]
    }
}

/// The bytes an entry is ordered by.
pub fn entry_key(e: &TreeEntry) -> (key: Vec<u8>)
    ensures
        key@ == sort_key(e@),
{
    let mut key = slice_to_vec(e.name.as_str().as_bytes());
    match e.kind {
        EntryKind::Tree => {
            key.push(47u8);
        },
        EntryKind::Blob => {},
    }
    key
}

/// Puts the entries of one directory in canonical order.
pub fn sort_entries(entries: Vec<TreeEntry>) -> (out: Vec<TreeEntry>)
    ensures
        entry_views(out@) == git_sorted(entry_views(entries@)),
        git_ordered(entry_views(out@)),
{
    let ghost all = entry_views(entries@);
    let mut out: Vec<TreeEntry> = Vec::new();
    assert(all.subrange(0, 0) =~= Seq::<EntryModel>::empty());
    assert(entry_views(out@) =~= git_sorted(all.subrange(0, 0)));
    for e in it: entries
        invariant
            all == entry_views(it.seq()),
            entry_views(out@) == git_sorted(all.subrange(0, it.index() as int)),
    {
        let ghost done = it.index() as int;
        let ghost before = entry_views(out@);
        let key = entry_key(&e);
        let mut j: usize = out.len();
        while j > 0 && !bytes_le(&entry_key(&out[j - 1]), &key)
            invariant
                j <= out.len(),
                key@ == sort_key(e@),
                before == entry_views(out@),
                forall|k: int| j <= k < before.len() ==> !entry_le(#[trigger] before[k], e@),
            decreases j,
        {
            j = j - 1;
        }
        proof {
            assert(all.subrange(0, done + 1).drop_last() =~= all.subrange(0, done));
            assert(all.subrange(0, done + 1).last() == e@);
            lemma_inserted_at(before, e@, j as int);
        }
        out.insert(j, e);
        assert(entry_views(out@) =~= before.insert(j as int, e@));
    }
    assert(all.subrange(0, all.len() as int) =~= all);
    proof {
        lemma_git_sorted(all);
    }
    out
}

/// Whether a path matches a pattern of an ignore file, as `gix` decides it
/// with `*` and `?` not matching `/`.
pub uninterp spec fn wildmatches(pattern: Seq<u8>, path: Seq<u8>) -> bool;

/// The patterns that `gix` reads from the text of an ignore file.
pub uninterp spec fn ignore_patterns(text: Seq<u8>) -> Seq<Seq<u8>>;

/// The id that `gix` computes for an object of the given kind and bytes;
/// none where it computes none.
pub uninterp spec fn object_hash(is_tree: bool, data: Seq<u8>) -> Option<Seq<u8>>;

/// The id of the blob that holds the given bytes.
pub open spec fn blob_hash(data: Seq<u8>) -> Option<Seq<u8>> {
    object_hash(false, data)
}

/// The bytes a kind is written as in a tree.
pub open spec fn mode_bytes(kind: EntryKind) -> Seq<u8> {
    match kind {
        EntryKind::Tree => seq![52u8, 48u8, 48u8, 48u8, 48u8],
        EntryKind::Blob => seq![49u8, 48u8, 48u8, 54u8, 52u8, 52u8],
    }
}

/// The bytes an entry is written as in a tree: its mode in octal, a space,
/// its name, a zero byte, and its id.
pub open spec fn entry_bytes(e: EntryModel) -> Seq<u8> {
    mode_bytes(e.kind) + seq![32u8] + encode_utf8(e.name) + seq![0u8] + e.id
}

/// Tells whether an entry can be written: its id has the twenty bytes of an
/// object id, and its name holds no zero byte.
pub open spec fn is_writable(e: EntryModel) -> bool {
    e.id.len() == 20 && !encode_utf8(e.name).contains(0u8)
}

/// The bytes of the entries, one after the other.
pub open spec fn entries_bytes(entries: Seq<EntryModel>) -> Seq<u8>
    decreases entries.len(),
{
    if entries.len() == 0 {
        Seq::<u8>::empty()
    } else {
        entries_bytes(entries.drop_last()) + entry_bytes(entries.last())
    }
}

/// The bytes of the tree that holds the given entries; none where an entry
/// cannot be written.
pub open spec fn tree_bytes(entries: Seq<EntryModel>) -> Option<Seq<u8>> {
    if forall|i: int| 0 <= i < entries.len() ==> is_writable(#[trigger] entries[i]) {
        Some(entries_bytes(entries))
    } else {
        None
    }
}

/// The id of the tree that holds the given entries; none where an entry
/// cannot be written.
pub open spec fn tree_hash(entries: Seq<EntryModel>) -> Option<Seq<u8>> {
    match tree_bytes(entries) {
        Some(bytes) => object_hash(true, bytes),
        None => None,
    }
}

/// The byte strings in `items`, as sequences.
pub open spec fn byte_views(items: Seq<Vec<u8>>) -> Seq<Seq<u8>> {
    items.map_values(|v: Vec<u8>| v@)
}

/// Matches a path against one pattern.
///
/// Trusted: the result of `gix::glob::wildmatch` depends on the pattern and
/// the path alone; it is given the name [`wildmatches`].
#[verifier::external_body]
pub(crate) fn wildmatch(pattern: &[u8], path: &[u8]) -> (m: bool)
    ensures
        m == wildmatches(pattern@, path@),
{
    gix::glob::wildmatch(pattern.into(), path.into(), gix::glob::wildmatch::Mode::NO_MATCH_SLASH_LITERAL)
}

/// Reads the patterns of an ignore file.
///
/// Trusted: the patterns that `gix::ignore::parse` yields depend on the text
/// alone; their texts, in order, are given the name [`ignore_patterns`].
#[verifier::external_body]
pub(crate) fn read_patterns(text: &[u8]) -> (patterns: Vec<Vec<u8>>)
    ensures
        byte_views(patterns@) == ignore_patterns(text@),
{
    gix::ignore::parse(text, false).map(|(pattern, _, _)| pattern.text.to_vec()).collect()
}

/// Computes the id of an object.
///
/// Trusted: whether `gix::objs::compute_hash` yields an id, and which,
/// depends on the kind and the bytes of the object alone; it is given the
/// name [`object_hash`].
#[verifier::external_body]
pub(crate) fn hash_object(is_tree: bool, data: &[u8]) -> (id: Option<Vec<u8>>)
    ensures
        match id {
            Some(bytes) => object_hash(is_tree, data@) == Some(bytes@),
            None => object_hash(is_tree, data@) is None,
        },
{
    let kind = if is_tree { gix::objs::Kind::Tree } else { gix::objs::Kind::Blob };
    let id = gix::objs::compute_hash(gix::hash::Kind::Sha1, kind, data).ok()?;
    Some(id.as_bytes().to_vec())
}

/// Writes a tree as bytes.
///
/// Trusted: `gix::objs::Tree::write_to` writes, for each entry in turn, its
/// mode in octal, a space, its name, a zero byte and its id, and fails on a
/// name that holds a zero byte; an id of other than twenty bytes is no
/// object id.
#[verifier::external_body]
pub(crate) fn encode_tree(entries: &Vec<TreeEntry>) -> (bytes: Option<Vec<u8>>)
    requires
        git_ordered(entry_views(entries@)),
    ensures
        match bytes {
            Some(data) => tree_bytes(entry_views(entries@)) == Some(data@),
            None => tree_bytes(entry_views(entries@)) is None,
        },
{
    let entries = entries.iter().map(|e| Some(tree::Entry {
        mode: match e.kind { EntryKind::Tree => tree::EntryKind::Tree, EntryKind::Blob => tree::EntryKind::Blob }.into(),
        filename: e.name.as_str().into(),
        oid: gix::ObjectId::try_from(e.id.as_slice()).ok()?,
    })).collect::<Option<Vec<_>>>()?;
    let mut data = Vec::new();
    Tree { entries }.write_to(&mut data).ok()?;
    Some(data)
}

/// Computes the id of the blob that holds the given bytes.
pub fn blob_id(data: &[u8]) -> (id: Option<Vec<u8>>)
    ensures
        match id {
            Some(bytes) => blob_hash(data@) == Some(bytes@),
            None => blob_hash(data@) is None,
        },
{
    hash_object(false, data)
}

/// Computes the id of the tree that holds the given entries, in canonical
/// order.
pub fn tree_id(entries: &Vec<TreeEntry>) -> (id: Option<Vec<u8>>)
    requires
        git_ordered(entry_views(entries@)),
    ensures
        match id {
            Some(bytes) => tree_hash(entry_views(entries@)) == Some(bytes@),
            None => tree_hash(entry_views(entries@)) is None,
        },
{
    match encode_tree(entries) {
        Some(data) => hash_object(true, data.as_slice()),
        None => None,
    }
}

/// A file or directory of the tree that is snapshotted, with what it holds.
#[derive(Debug)]
pub enum Node {
    /// A file and its contents.
    File { name: String, contents: Vec<u8> },
    /// A directory and its entries.
    Dir { name: String, children: Vec<Node> },
}

/// A tree object: its entries in canonical order, and its id.
#[derive(Debug, Clone, PartialEq, Eq)]
pub struct TreeObject {
    /// The entries, in canonical order.
    pub entries: Vec<TreeEntry>,
    /// The id of the tree.
    pub id: Vec<u8>,
}

impl View for TreeObject {
    type V = (Seq<EntryModel>, Seq<u8>);

    open spec fn view(&self) -> (Seq<EntryModel>, Seq<u8>) {
        (entry_views(self.entries@), self.id@)
    }
}

/// One line of the flat blob index: the path of a file below the root, and
/// the id of its blob.
#[derive(Debug, Clone, PartialEq, Eq)]
pub struct BlobEntry {
    /// Path of the file, relative to the root, with `/` between components.
    pub path: String,
    /// The id of the blob.
    pub id: Vec<u8>,
}

impl View for BlobEntry {
    type V = (Seq<char>, Seq<u8>);

    open spec fn view(&self) -> (Seq<char>, Seq<u8>) {
        (self.path@, self.id@)
    }
}

/// The trees in `trees`, as mathematical values.
pub open spec fn tree_views(trees: Seq<TreeObject>) -> Seq<(Seq<EntryModel>, Seq<u8>)> {
    trees.map_values(|t: TreeObject| t@)
}

/// The blob index lines in `blobs`, as mathematical values.
pub open spec fn blob_views(blobs: Seq<BlobEntry>) -> Seq<(Seq<char>, Seq<u8>)> {
    blobs.map_values(|b: BlobEntry| b@)
}

/// The snapshot of a directory: the id of its tree, every tree below and
/// including it with children before parents, and the flat blob index.
#[derive(Debug, Clone, PartialEq, Eq)]
pub struct Snapshot {
    /// The id of the root tree.
    pub tree_id: Vec<u8>,
    /// Every tree of the snapshot; the root tree comes last.
    pub trees: Vec<TreeObject>,
    /// Every file of the snapshot with the id of its blob.
    pub blobs: Vec<BlobEntry>,
}

/// The mathematical value of a snapshot.
pub struct SnapshotModel {
    pub tree_id: Seq<u8>,
    pub trees: Seq<(Seq<EntryModel>, Seq<u8>)>,
    pub blobs: Seq<(Seq<char>, Seq<u8>)>,
}

impl View for Snapshot {
    type V = SnapshotModel;

    open spec fn view(&self) -> SnapshotModel {
        SnapshotModel {
            tree_id: self.tree_id@,
            trees: tree_views(self.trees@),
            blobs: blob_views(self.blobs@),
        }
    }
}

/// What walking some entries of a directory has gathered.
pub struct Gathered {
    /// The tree entries of the directory, in the order they were met.
    pub entries: Seq<EntryModel>,
    /// The trees of the directories below, children before parents.
    pub trees: Seq<(Seq<EntryModel>, Seq<u8>)>,
    /// The blob index lines of the files below.
    pub blobs: Seq<(Seq<char>, Seq<u8>)>,
    /// Whether an object below could not be given an id.
    pub failed: bool,
}

/// The name of a node.
pub open spec fn node_name(node: Node) -> Seq<char> {
    match node {
        Node::File { name, contents } => name@,
        Node::Dir { name, children } => name@,
    }
}

/// The path of an entry named `name` in the directory at `prefix`; the root
/// has the empty path.
pub open spec fn child_path(prefix: Seq<char>, name: Seq<char>) -> Seq<char> {
    if prefix.len() == 0 {
        name
    } else {
        prefix + seq!['/'] + name
    }
}

/// A path is ignored when it matches one of the patterns.
pub open spec fn is_ignored_path(path: Seq<char>, patterns: Seq<Seq<u8>>) -> bool {
    exists|i: int| 0 <= i < patterns.len() && wildmatches(#[trigger] patterns[i], encode_utf8(path))
}

/// What walking the first `n` entries of a directory gathers.
///
/// An ignored entry and a directory named `.git` are passed over. A file
/// gives a blob entry and a line of the blob index. A directory gives a tree
/// entry that points at the tree of its own entries in canonical order.
/// The walk fails where an object cannot be given an id.
pub open spec fn gathered(children: Vec<Node>, n: nat, prefix: Seq<char>, patterns: Seq<Seq<u8>>) -> Gathered
    decreases children, n,
{
    if n == 0 || n > children.len() {
        Gathered {
            entries: Seq::<EntryModel>::empty(),
            trees: Seq::<(Seq<EntryModel>, Seq<u8>)>::empty(),
            blobs: Seq::<(Seq<char>, Seq<u8>)>::empty(),
            failed: false,
        }
    } else {
        let before = gathered(children, (n - 1) as nat, prefix, patterns);
        let node = children[n - 1];
        let path = child_path(prefix, node_name(node));
        if is_ignored_path(path, patterns) {
            before
        } else {
            match node {
                Node::File { name, contents } => match blob_hash(contents@) {
                    Some(id) => Gathered {
                        entries: before.entries.push(
                            EntryModel { name: name@, kind: EntryKind::Blob, id },
                        ),
                        blobs: before.blobs.push((path, id)),
                        ..before
                    },
                    None => Gathered { failed: true, ..before },
                },
                Node::Dir { name, children: below } => {
                    if name@ == ".git"@ {
                        before
                    } else {
                        let inner = gathered(below, below.len() as nat, path, patterns);
                        let sorted = git_sorted(inner.entries);
                        if !inner.failed && tree_hash(sorted) is Some {
                            let id = tree_hash(sorted)->0;
                            Gathered {
                                entries: before.entries.push(
                                    EntryModel { name: name@, kind: EntryKind::Tree, id },
                                ),
                                trees: before.trees + inner.trees.push((sorted, id)),
                                blobs: before.blobs + inner.blobs,
                                failed: before.failed,
                            }
                        } else {
                            Gathered { failed: true, ..before }
                        }
                    }
                },
            }
        }
    }
}

/// The snapshot of a directory with the given entries; none where an
/// object cannot be given an id.
pub open spec fn snapshot_of(children: Vec<Node>, patterns: Seq<Seq<u8>>) -> Option<SnapshotModel> {
    let all = gathered(children, children.len() as nat, Seq::<char>::empty(), patterns);
    let sorted = git_sorted(all.entries);
    if !all.failed && tree_hash(sorted) is Some {
        let id = tree_hash(sorted)->0;
        Some(SnapshotModel { tree_id: id, trees: all.trees.push((sorted, id)), blobs: all.blobs })
    } else {
        None
    }
}

/// Tells whether the first `n` entries of two directories hold the same:
/// files of the same names and contents, and directories of the same names
/// whose entries hold the same in turn.
pub open spec fn same_content(a: Vec<Node>, b: Vec<Node>, n: nat) -> bool
    decreases a, n,
{
    if n == 0 {
        true
    } else if n > a.len() || n > b.len() {
        false
    } else {
        &&& same_content(a, b, (n - 1) as nat)
        &&& match (a[n - 1], b[n - 1]) {
            (Node::File { name, contents }, Node::File { name: other_name, contents: other }) => {
                name@ == other_name@ && contents@ == other@
            },
            (Node::Dir { name, children }, Node::Dir { name: other_name, children: other }) => {
                &&& name@ == other_name@
                &&& children.len() == other.len()
                &&& same_content(children, other, children.len() as nat)
            },
            _ => false,
        }
    }
}

/// Directories that hold the same gather the same.
pub proof fn lemma_same_content_gathers_the_same(
    a: Vec<Node>,
    b: Vec<Node>,
    n: nat,
    prefix: Seq<char>,
    patterns: Seq<Seq<u8>>,
)
    requires
        same_content(a, b, n),
    ensures
        gathered(a, n, prefix, patterns) == gathered(b, n, prefix, patterns),
    decreases a, n,
{
    if n > 0 {
        lemma_same_content_gathers_the_same(a, b, (n - 1) as nat, prefix, patterns);
        match (a[n - 1], b[n - 1]) {
            (Node::Dir { name, children }, Node::Dir { name: other_name, children: other }) => {
                lemma_same_content_gathers_the_same(
                    children,
                    other,
                    children.len() as nat,
                    child_path(prefix, name@),
                    patterns,
                );
            },
            _ => {},
        }
    }
}

/// A directory that has not changed has the snapshot it had: two
/// directories that hold the same have the same snapshot, and so the same
/// tree id, whatever values stand for them.
pub proof fn lemma_unchanged_directory_same_snapshot(
    a: Vec<Node>,
    b: Vec<Node>,
    patterns: Seq<Seq<u8>>,
)
    requires
        a.len() == b.len(),
        same_content(a, b, a.len() as nat),
    ensures
        snapshot_of(a, patterns) == snapshot_of(b, patterns),
{
    lemma_same_content_gathers_the_same(a, b, a.len() as nat, Seq::<char>::empty(), patterns);
}

/// Tells whether the entries of every tree are in canonical order.
pub open spec fn all_ordered(trees: Seq<(Seq<EntryModel>, Seq<u8>)>) -> bool {
    forall|i: int| 0 <= i < trees.len() ==> git_ordered((#[trigger] trees[i]).0)
}

/// Every tree that a walk gathers holds its entries in canonical order.
pub proof fn lemma_gathered_trees_are_ordered(
    children: Vec<Node>,
    n: nat,
    prefix: Seq<char>,
    patterns: Seq<Seq<u8>>,
)
    ensures
        all_ordered(gathered(children, n, prefix, patterns).trees),
    decreases children, n,
{
    if n == 0 || n > children.len() {
    } else {
        lemma_gathered_trees_are_ordered(children, (n - 1) as nat, prefix, patterns);
        let before = gathered(children, (n - 1) as nat, prefix, patterns);
        let node = children[n - 1];
        let path = child_path(prefix, node_name(node));
        match node {
            Node::Dir { name, children: below } => {
                lemma_gathered_trees_are_ordered(below, below.len() as nat, path, patterns);
                let inner = gathered(below, below.len() as nat, path, patterns);
                let sorted = git_sorted(inner.entries);
                lemma_git_sorted(inner.entries);
                if !is_ignored_path(path, patterns) && name@ != ".git"@ && !inner.failed
                    && tree_hash(sorted) is Some {
                    let id = tree_hash(sorted)->0;
                    let trees = before.trees + inner.trees.push((sorted, id));
                    assert forall|i: int| 0 <= i < trees.len() implies git_ordered(
                        (#[trigger] trees[i]).0,
                    ) by {
                        if i < before.trees.len() {
                            assert(trees[i] == before.trees[i]);
                        } else if i < before.trees.len() + inner.trees.len() {
                            assert(trees[i] == inner.trees[i - before.trees.len()]);
                        } else {
                            assert(trees[i] == (sorted, id));
                        }
                    }
                }
            },
            Node::File { name, contents } => {},
        }
    }
}

/// Every tree of a snapshot holds its entries in canonical order.
pub proof fn lemma_snapshot_trees_are_ordered(children: Vec<Node>, patterns: Seq<Seq<u8>>)
    requires
        snapshot_of(children, patterns) is Some,
    ensures
        all_ordered(snapshot_of(children, patterns)->0.trees),
{
    let all = gathered(children, children.len() as nat, Seq::<char>::empty(), patterns);
    lemma_gathered_trees_are_ordered(children, children.len() as nat, Seq::<char>::empty(), patterns);
    lemma_git_sorted(all.entries);
    let sorted = git_sorted(all.entries);
    let trees = snapshot_of(children, patterns)->0.trees;
    assert forall|i: int| 0 <= i < trees.len() implies git_ordered((#[trigger] trees[i]).0) by {
        if i < all.trees.len() {
            assert(trees[i] == all.trees[i]);
        } else {
            assert(trees[i].0 == sorted);
        }
    }
}

/// What walking some entries of a directory has gathered, as the walk
/// holds it.
pub struct Gathering {
    /// The tree entries of the directory.
    pub entries: Vec<TreeEntry>,
    /// The trees of the directories below.
    pub trees: Vec<TreeObject>,
    /// The blob index lines of the files below.
    pub blobs: Vec<BlobEntry>,
    /// Whether an object below could not be given an id.
    pub failed: bool,
}

impl View for Gathering {
    type V = Gathered;

    open spec fn view(&self) -> Gathered {
        Gathered {
            entries: entry_views(self.entries@),
            trees: tree_views(self.trees@),
            blobs: blob_views(self.blobs@),
            failed: self.failed,
        }
    }
}

/// Tells whether a path matches one of the patterns of the ignore file.
pub fn is_ignored(path: &str, patterns: &Vec<Vec<u8>>) -> (ignored: bool)
    ensures
        ignored == is_ignored_path(path@, byte_views(patterns@)),
{
    let ghost all = byte_views(patterns@);
    let bytes = path.as_bytes();
    let mut i: usize = 0;
    while i < patterns.len()
        invariant
            i <= patterns.len(),
            all == byte_views(patterns@),
            bytes@ == encode_utf8(path@),
            forall|k: int| 0 <= k < i ==> !wildmatches(#[trigger] all[k], encode_utf8(path@)),
        decreases patterns.len() - i,
    {
        if wildmatch(patterns[i].as_slice(), bytes) {
            assert(wildmatches(all[i as int], encode_utf8(path@)));
            return true;
        }
        i = i + 1;
    }
    false
}

/// The path of an entry named `name` in the directory at `prefix`.
fn join_path(prefix: &str, name: &str) -> (path: String)
    ensures
        path@ == child_path(prefix@, name@),
{
    if prefix.unicode_len() == 0 {
        name.to_owned()
    } else {
        let mut path = prefix.to_owned();
        path.append("/");
        proof {
            reveal_strlit("/");
            assert("/"@ =~= seq!['/']);
        }
        path.append(name);
        path
    }
}

/// Walks the entries of a directory, and the directories below it.
pub fn gather(children: &Vec<Node>, prefix: &str, patterns: &Vec<Vec<u8>>) -> (g: Gathering)
    ensures
        g@ == gathered(*children, children.len() as nat, prefix@, byte_views(patterns@)),
    decreases children,
{
    let mut g = Gathering {
        entries: Vec::new(),
        trees: Vec::new(),
        blobs: Vec::new(),
        failed: false,
    };
    let mut i: usize = 0;
    assert(g@.entries =~= Seq::<EntryModel>::empty());
    assert(g@.trees =~= Seq::<(Seq<EntryModel>, Seq<u8>)>::empty());
    assert(g@.blobs =~= Seq::<(Seq<char>, Seq<u8>)>::empty());
    while i < children.len()
        invariant
            i <= children.len(),
            g@ == gathered(*children, i as nat, prefix@, byte_views(patterns@)),
        decreases children.len() - i,
    {
        let ghost before = g@;
        match &children[i] {
            Node::File { name, contents } => {
                let path = join_path(prefix, name.as_str());
                if !is_ignored(path.as_str(), patterns) {
                    match blob_id(contents.as_slice()) {
                        Some(id) => {
                            let entry = TreeEntry {
                                name: name.clone(),
                                kind: EntryKind::Blob,
                                id: slice_to_vec(id.as_slice()),
                            };
                            g.entries.push(entry);
                            g.blobs.push(BlobEntry { path, id });
                            assert(g@.entries =~= before.entries.push(entry@));
                            assert(g@.blobs =~= before.blobs.push((path@, id@)));
                            assert(g@.trees =~= before.trees);
                        },
                        None => {
                            g.failed = true;
                        },
                    }
                }
            },
            Node::Dir { name, children: below } => {
                let path = join_path(prefix, name.as_str());
                if !is_ignored(path.as_str(), patterns) && !same_text(name.as_str(), ".git") {
                    let inner = gather(below, path.as_str(), patterns);
                    let ghost inner_model = inner@;
                    let sorted = sort_entries(inner.entries);
                    match tree_id(&sorted) {
                        Some(id) => {
                            if inner.failed {
                                g.failed = true;
                            } else {
                                let entry = TreeEntry {
                                    name: name.clone(),
                                    kind: EntryKind::Tree,
                                    id: slice_to_vec(id.as_slice()),
                                };
                                let mut inner_trees = inner.trees;
                                let mut inner_blobs = inner.blobs;
                                let tree = TreeObject { entries: sorted, id };
                                inner_trees.push(tree);
                                assert(tree_views(inner_trees@) =~= inner_model.trees.push(tree@));
                                g.entries.push(entry);
                                g.trees.append(&mut inner_trees);
                                g.blobs.append(&mut inner_blobs);
                                assert(g@.entries =~= before.entries.push(entry@));
                                assert(g@.trees =~= before.trees + inner_model.trees.push(tree@));
                                assert(g@.blobs =~= before.blobs + inner_model.blobs);
                            }
                        },
                        None => {
                            g.failed = true;
                        },
                    }
                }
            },
        }
        i = i + 1;
    }
    g
}

/// Builds the snapshot of a directory from its entries and the text of the
/// ignore file at its root.
///
/// There is no snapshot where an object cannot be given an id.
pub fn build_snapshot(children: &Vec<Node>, ignore_file: &[u8]) -> (snapshot: Option<Snapshot>)
    ensures
        match snapshot_of(*children, ignore_patterns(ignore_file@)) {
            Some(model) => snapshot is Some && snapshot->0@ == model,
            None => snapshot is None,
        },
{
    let patterns = read_patterns(ignore_file);
    let all = gather(children, "", &patterns);
    proof {
        reveal_strlit("");
        assert(""@ =~= Seq::<char>::empty());
    }
    let ghost model = all@;
    let sorted = sort_entries(all.entries);
    match tree_id(&sorted) {
        Some(id) => {
            if all.failed {
                None
            } else {
                let mut trees = all.trees;
                let tree = TreeObject { entries: sorted, id: slice_to_vec(id.as_slice()) };
                trees.push(tree);
                assert(tree_views(trees@) =~= model.trees.push(tree@));
                Some(Snapshot { tree_id: id, trees, blobs: all.blobs })
            }
        },
        None => None,
    }
}

} // verus!
