//! Synchronization of registered command metadata: the full definition set
//! is flattened, each declared argument is encoded canonically, the
//! encodings are sorted so that registration order never causes spurious
//! mismatches, and the result is one fingerprint string. Registration with
//! the platform is owed only while the stored fingerprint differs.

use vstd::prelude::*;
use vstd::multiset::Multiset;
use vstd::string::StringExecFns;

use crate::store::ConfigStore;
use crate::text::{lex_le, str_lex_le};
use crate::tree::{ArgKind, ArgSpec, CommandTree, Group, Leaf, Node};

verus! {

/// The views of a sequence of strings.
pub open spec fn views(s: Seq<String>) -> Seq<Seq<char>> {
    s.map_values(|x: String| x@)
}

proof fn lemma_views_add(a: Seq<String>, b: Seq<String>)
    ensures
        views(a + b) == views(a) + views(b),
{
    assert(views(a + b) =~= views(a) + views(b));
}

proof fn lemma_views_skip(s: Seq<String>, i: int)
    requires
        0 <= i <= s.len(),
    ensures
        views(s.skip(i)) == views(s).skip(i),
{
    assert(views(s.skip(i)) =~= views(s).skip(i));
}

/// The canonical code of an argument kind.
pub open spec fn kind_code(k: ArgKind) -> Seq<char> {
    match k {
        ArgKind::Text => "string"@,
        ArgKind::Integer => "integer"@,
        ArgKind::Boolean => "boolean"@,
        ArgKind::User => "user"@,
        ArgKind::Channel => "channel"@,
        ArgKind::Role => "role"@,
    }
}

/// The canonical encoding of one declared argument.
pub open spec fn spec_encode_arg(a: ArgSpec) -> Seq<char> {
    kind_code(a.kind) + ":"@ + (if a.required {
        "1"@
    } else {
        "0"@
    }) + ":"@ + a.name@ + ":"@ + a.description@
}

/// The encodings of a leaf's declared arguments, in declaration order.
pub open spec fn spec_encode_args(args: Seq<ArgSpec>) -> Seq<Seq<char>>
    decreases args.len(),
{
    if args.len() == 0 {
        Seq::empty()
    } else {
        seq![spec_encode_arg(args[0])] + spec_encode_args(args.skip(1))
    }
}

/// The encodings of the arguments of every leaf of a flat subcommand list.
pub open spec fn spec_encode_leaves(subs: Seq<(String, Leaf)>) -> Seq<Seq<char>>
    decreases subs.len(),
{
    if subs.len() == 0 {
        Seq::empty()
    } else {
        spec_encode_args(subs[0].1.args@) + spec_encode_leaves(subs.skip(1))
    }
}

/// The encodings of the arguments of every leaf under a nested group list.
pub open spec fn spec_encode_groups(groups: Seq<(String, Vec<(String, Leaf)>)>) -> Seq<Seq<char>>
    decreases groups.len(),
{
    if groups.len() == 0 {
        Seq::empty()
    } else {
        spec_encode_leaves(groups[0].1@) + spec_encode_groups(groups.skip(1))
    }
}

/// The encodings a top-level node contributes: all leaf arguments, across
/// top-level commands and both group shapes.
pub open spec fn spec_encode_node(n: Node) -> Seq<Seq<char>> {
    match n {
        Node::Leaf(leaf) => spec_encode_args(leaf.args@),
        Node::Group(Group::Simple(subs)) => spec_encode_leaves(subs@),
        Node::Group(Group::Nested(groups)) => spec_encode_groups(groups@),
    }
}

/// The encodings of the whole tree, in registration order.
pub open spec fn spec_flatten(entries: Seq<(String, Node)>) -> Seq<Seq<char>>
    decreases entries.len(),
{
    if entries.len() == 0 {
        Seq::empty()
    } else {
        spec_encode_node(entries[0].1) + spec_flatten(entries.skip(1))
    }
}

/// Insertion into a sorted sequence, by `lex_le`.
pub open spec fn insert_sorted(x: Seq<char>, s: Seq<Seq<char>>) -> Seq<Seq<char>>
    decreases s.len(),
{
    if s.len() == 0 {
        seq![x]
    } else if lex_le(x, s[0]) {
        seq![x] + s
    } else {
        seq![s[0]] + insert_sorted(x, s.skip(1))
    }
}

/// Insertion sort by `lex_le`: the canonical order of the encodings,
/// independent of registration order.
pub open spec fn sort_lex(s: Seq<Seq<char>>) -> Seq<Seq<char>>
    decreases s.len(),
{
    if s.len() == 0 {
        Seq::empty()
    } else {
        insert_sorted(s[0], sort_lex(s.skip(1)))
    }
}

/// Adjacent ordering by `lex_le`.
pub open spec fn sorted_lex(s: Seq<Seq<char>>) -> bool {
    forall|i: int| 0 <= i < s.len() - 1 ==> lex_le(#[trigger] s[i], s[i + 1])
}

/// `lex_le` is total: any two strings compare one way or the other.
pub proof fn lemma_lex_le_total(a: Seq<char>, b: Seq<char>)
    ensures
        lex_le(a, b) || lex_le(b, a),
    decreases a.len(),
{
    if a.len() > 0 && b.len() > 0 && a[0] == b[0] {
        lemma_lex_le_total(a.skip(1), b.skip(1));
    }
}

/// Insertion keeps a sequence sorted, and the inserted head is one of the
/// two candidates.
proof fn lemma_insert_sorted_sorted(x: Seq<char>, s: Seq<Seq<char>>)
    requires
        sorted_lex(s),
    ensures
        sorted_lex(insert_sorted(x, s)),
        insert_sorted(x, s).len() == s.len() + 1,
        insert_sorted(x, s)[0] == x || (s.len() > 0 && insert_sorted(x, s)[0] == s[0]),
    decreases s.len(),
{
    if s.len() == 0 {
    } else if lex_le(x, s[0]) {
        let t = seq![x] + s;
        assert forall|i: int| 0 <= i < t.len() - 1 implies lex_le(#[trigger] t[i], t[i + 1]) by {
            if i > 0 {
                assert(t[i] == s[i - 1]);
                assert(t[i + 1] == s[i]);
            }
        }
    } else {
        assert forall|i: int| 0 <= i < s.skip(1).len() - 1 implies lex_le(
            #[trigger] s.skip(1)[i],
            s.skip(1)[i + 1],
        ) by {
            assert(s.skip(1)[i] == s[i + 1]);
            assert(s.skip(1)[i + 1] == s[i + 2]);
        }
        lemma_insert_sorted_sorted(x, s.skip(1));
        lemma_lex_le_total(x, s[0]);
        let rest = insert_sorted(x, s.skip(1));
        let t = seq![s[0]] + rest;
        assert forall|i: int| 0 <= i < t.len() - 1 implies lex_le(#[trigger] t[i], t[i + 1]) by {
            if i == 0 {
                assert(t[1] == rest[0]);
                if s.len() > 1 {
                    assert(rest[0] == x || rest[0] == s.skip(1)[0]);
                    assert(s.skip(1)[0] == s[1]);
                }
            } else {
                assert(t[i] == rest[i - 1]);
                assert(t[i + 1] == rest[i]);
            }
        }
    }
}

/// Law: the fingerprint's encoding order is canonical. Whatever order the
/// encodings arrive in, `sort_lex` leaves them sorted by `lex_le`, so equal
/// definition sets serialize equally.
pub proof fn lemma_sort_lex_sorted(s: Seq<Seq<char>>)
    ensures
        sorted_lex(sort_lex(s)),
        sort_lex(s).len() == s.len(),
    decreases s.len(),
{
    if s.len() > 0 {
        lemma_sort_lex_sorted(s.skip(1));
        lemma_insert_sorted_sorted(s[0], sort_lex(s.skip(1)));
    }
}

/// Adjacent ordering extends to any two positions, `lex_le` being
/// transitive.
proof fn lemma_sorted_lex_pairwise(s: Seq<Seq<char>>, i: int, j: int)
    requires
        sorted_lex(s),
        0 <= i < j < s.len(),
    ensures
        lex_le(s[i], s[j]),
    decreases j - i,
{
    if j == i + 1 {
    } else {
        lemma_sorted_lex_pairwise(s, i, j - 1);
        crate::text::lemma_lex_le_trans(s[i], s[j - 1], s[j]);
    }
}

/// Insertion adds exactly the inserted element to the sequence's contents.
proof fn lemma_insert_sorted_multiset(x: Seq<char>, s: Seq<Seq<char>>)
    ensures
        insert_sorted(x, s).to_multiset() == s.to_multiset().insert(x),
    decreases s.len(),
{
    broadcast use vstd::seq_lib::group_to_multiset_ensures;
    broadcast use vstd::multiset::group_multiset_axioms;

    if s.len() == 0 {
        assert(seq![x] =~= Seq::<Seq<char>>::empty().push(x));
        assert(s.to_multiset() =~= Multiset::<Seq<char>>::empty());
        assert(seq![x].to_multiset() =~= s.to_multiset().insert(x));
    } else if lex_le(x, s[0]) {
        vstd::seq_lib::lemma_multiset_commutative(seq![x], s);
        assert(seq![x].to_multiset() =~= Multiset::<Seq<char>>::empty().insert(x));
        assert((seq![x] + s).to_multiset() =~= s.to_multiset().insert(x));
    } else {
        lemma_insert_sorted_multiset(x, s.skip(1));
        vstd::seq_lib::lemma_multiset_commutative(seq![s[0]], insert_sorted(x, s.skip(1)));
        assert(seq![s[0]].to_multiset() =~= Multiset::<Seq<char>>::empty().insert(s[0]));
        assert(s =~= seq![s[0]] + s.skip(1));
        vstd::seq_lib::lemma_multiset_commutative(seq![s[0]], s.skip(1));
        assert((seq![s[0]] + insert_sorted(x, s.skip(1))).to_multiset() =~= s.to_multiset().insert(
            x,
        ));
    }
}

/// Sorting permutes: the sorted sequence holds exactly the encodings it was
/// given.
proof fn lemma_sort_lex_multiset(s: Seq<Seq<char>>)
    ensures
        sort_lex(s).to_multiset() == s.to_multiset(),
    decreases s.len(),
{
    broadcast use vstd::seq_lib::group_to_multiset_ensures;
    broadcast use vstd::multiset::group_multiset_axioms;

    if s.len() > 0 {
        lemma_sort_lex_multiset(s.skip(1));
        lemma_insert_sorted_multiset(s[0], sort_lex(s.skip(1)));
        assert(s =~= seq![s[0]] + s.skip(1));
        vstd::seq_lib::lemma_multiset_commutative(seq![s[0]], s.skip(1));
        assert(seq![s[0]].to_multiset() =~= Multiset::<Seq<char>>::empty().insert(s[0]));
        assert(sort_lex(s).to_multiset() =~= s.to_multiset());
    }
}

/// Law: the fingerprint is independent of registration order. Two trees
/// whose flattened definition sets hold the same encodings — however they
/// were ordered at registration — have equal fingerprints, so a reordered
/// but unchanged command surface never obliges a registration call.
pub proof fn lemma_fingerprint_order_independent(t1: &CommandTree, t2: &CommandTree)
    requires
        spec_flatten(t1.entries@).to_multiset() == spec_flatten(t2.entries@).to_multiset(),
    ensures
        spec_fingerprint_of(t1) == spec_fingerprint_of(t2),
{
    let leq = |a: Seq<char>, b: Seq<char>| lex_le(a, b);
    assert forall|x: Seq<char>| #[trigger] leq(x, x) by {
        crate::text::lemma_lex_le_refl(x);
    }
    assert forall|x: Seq<char>, y: Seq<char>| #[trigger] leq(x, y) && #[trigger] leq(y, x)
        implies x == y by {
        crate::text::lemma_lex_le_antisym(x, y);
    }
    assert forall|x: Seq<char>, y: Seq<char>, z: Seq<char>|
        #[trigger] leq(x, y) && #[trigger] leq(y, z) implies leq(x, z) by {
        crate::text::lemma_lex_le_trans(x, y, z);
    }
    assert forall|x: Seq<char>, y: Seq<char>| #[trigger] leq(x, y) || #[trigger] leq(y, x) by {
        lemma_lex_le_total(x, y);
    }
    assert(vstd::relations::total_ordering(leq));
    let s1 = sort_lex(spec_flatten(t1.entries@));
    let s2 = sort_lex(spec_flatten(t2.entries@));
    lemma_sort_lex_sorted(spec_flatten(t1.entries@));
    lemma_sort_lex_sorted(spec_flatten(t2.entries@));
    assert forall|i: int, j: int| 0 <= i < j < s1.len() implies #[trigger] leq(s1[i], s1[j]) by {
        lemma_sorted_lex_pairwise(s1, i, j);
    }
    assert forall|i: int, j: int| 0 <= i < j < s2.len() implies #[trigger] leq(s2[i], s2[j]) by {
        lemma_sorted_lex_pairwise(s2, i, j);
    }
    assert(vstd::relations::sorted_by(s1, leq));
    assert(vstd::relations::sorted_by(s2, leq));
    lemma_sort_lex_multiset(spec_flatten(t1.entries@));
    lemma_sort_lex_multiset(spec_flatten(t2.entries@));
    vstd::seq_lib::lemma_sorted_unique(s1, s2, leq);
    assert(s1 == s2);
}

/// The sorted encodings joined with ";".
pub open spec fn spec_join(s: Seq<Seq<char>>) -> Seq<char>
    decreases s.len(),
{
    if s.len() == 0 {
        Seq::empty()
    } else if s.len() == 1 {
        s[0]
    } else {
        s[0] + ";"@ + spec_join(s.skip(1))
    }
}

/// The canonical fingerprint of the full command definition set: a function
/// of the tree alone, unchanged under re-registration in the same shape.
pub open spec fn spec_fingerprint_of(tree: &CommandTree) -> Seq<char> {
    spec_join(sort_lex(spec_flatten(tree.entries@)))
}

/// The canonical code of an argument kind.
fn kind_code_str(k: ArgKind) -> (r: &'static str)
    ensures
        r@ == kind_code(k),
{
    match k {
        ArgKind::Text => "string",
        ArgKind::Integer => "integer",
        ArgKind::Boolean => "boolean",
        ArgKind::User => "user",
        ArgKind::Channel => "channel",
        ArgKind::Role => "role",
    }
}

/// Encodes one declared argument canonically.
fn encode_arg(a: &ArgSpec) -> (r: String)
    ensures
        r@ == spec_encode_arg(*a),
{
    String::from_str(kind_code_str(a.kind)).concat(":").concat(
        if a.required {
            "1"
        } else {
            "0"
        },
    ).concat(":").concat(a.name.as_str()).concat(":").concat(a.description.as_str())
}

/// Encodes the arguments of `args[i..]`.
fn encode_args_from(args: &Vec<ArgSpec>, i: usize) -> (r: Vec<String>)
    requires
        i <= args@.len(),
    ensures
        views(r@) == spec_encode_args(args@.skip(i as int)),
    decreases args@.len() - i,
{
    if i == args.len() {
        let r: Vec<String> = Vec::new();
        proof {
            assert(args@.skip(i as int) =~= Seq::<ArgSpec>::empty());
            assert(views(r@) =~= Seq::<Seq<char>>::empty());
        }
        r
    } else {
        let mut r: Vec<String> = Vec::new();
        r.push(encode_arg(&args[i]));
        let mut rest = encode_args_from(args, i + 1);
        let ghost head = r@;
        let ghost tail = rest@;
        r.append(&mut rest);
        proof {
            lemma_views_add(head, tail);
            assert(args@.skip(i as int)[0] == args@[i as int]);
            assert(args@.skip(i as int).skip(1) =~= args@.skip(i as int + 1));
            assert(views(head) =~= seq![spec_encode_arg(args@[i as int])]);
        }
        r
    }
}

/// Encodes every leaf argument of `subs[i..]`.
fn encode_leaves_from(subs: &Vec<(String, Leaf)>, i: usize) -> (r: Vec<String>)
    requires
        i <= subs@.len(),
    ensures
        views(r@) == spec_encode_leaves(subs@.skip(i as int)),
    decreases subs@.len() - i,
{
    if i == subs.len() {
        let r: Vec<String> = Vec::new();
        proof {
            assert(subs@.skip(i as int) =~= Seq::<(String, Leaf)>::empty());
            assert(views(r@) =~= Seq::<Seq<char>>::empty());
        }
        r
    } else {
        let mut r = encode_args_from(&subs[i].1.args, 0);
        let mut rest = encode_leaves_from(subs, i + 1);
        let ghost head = r@;
        let ghost tail = rest@;
        r.append(&mut rest);
        proof {
            lemma_views_add(head, tail);
            assert(subs@[i as int].1.args@.skip(0) =~= subs@[i as int].1.args@);
            assert(subs@.skip(i as int)[0] == subs@[i as int]);
            assert(subs@.skip(i as int).skip(1) =~= subs@.skip(i as int + 1));
        }
        r
    }
}

/// Encodes every leaf argument under `groups[i..]`.
fn encode_groups_from(groups: &Vec<(String, Vec<(String, Leaf)>)>, i: usize) -> (r: Vec<String>)
    requires
        i <= groups@.len(),
    ensures
        views(r@) == spec_encode_groups(groups@.skip(i as int)),
    decreases groups@.len() - i,
{
    if i == groups.len() {
        let r: Vec<String> = Vec::new();
        proof {
            assert(groups@.skip(i as int) =~= Seq::<(String, Vec<(String, Leaf)>)>::empty());
            assert(views(r@) =~= Seq::<Seq<char>>::empty());
        }
        r
    } else {
        let mut r = encode_leaves_from(&groups[i].1, 0);
        let mut rest = encode_groups_from(groups, i + 1);
        let ghost head = r@;
        let ghost tail = rest@;
        r.append(&mut rest);
        proof {
            lemma_views_add(head, tail);
            assert(groups@[i as int].1@.skip(0) =~= groups@[i as int].1@);
            assert(groups@.skip(i as int)[0] == groups@[i as int]);
            assert(groups@.skip(i as int).skip(1) =~= groups@.skip(i as int + 1));
        }
        r
    }
}

/// Encodes every leaf argument of `entries[i..]`.
fn flatten_from(entries: &Vec<(String, Node)>, i: usize) -> (r: Vec<String>)
    requires
        i <= entries@.len(),
    ensures
        views(r@) == spec_flatten(entries@.skip(i as int)),
    decreases entries@.len() - i,
{
    if i == entries.len() {
        let r: Vec<String> = Vec::new();
        proof {
            assert(entries@.skip(i as int) =~= Seq::<(String, Node)>::empty());
            assert(views(r@) =~= Seq::<Seq<char>>::empty());
        }
        r
    } else {
        let mut r = match &entries[i].1 {
            Node::Leaf(leaf) => {
                let e = encode_args_from(&leaf.args, 0);
                proof {
                    assert(leaf.args@.skip(0) =~= leaf.args@);
                }
                e
            },
            Node::Group(Group::Simple(subs)) => {
                let e = encode_leaves_from(subs, 0);
                proof {
                    assert(subs@.skip(0) =~= subs@);
                }
                e
            },
            Node::Group(Group::Nested(groups)) => {
                let e = encode_groups_from(groups, 0);
                proof {
                    assert(groups@.skip(0) =~= groups@);
                }
                e
            },
        };
        let mut rest = flatten_from(entries, i + 1);
        let ghost head = r@;
        let ghost tail = rest@;
        r.append(&mut rest);
        proof {
            lemma_views_add(head, tail);
            assert(entries@.skip(i as int)[0] == entries@[i as int]);
            assert(entries@.skip(i as int).skip(1) =~= entries@.skip(i as int + 1));
        }
        r
    }
}

/// Inserts `x` into the sorted vector `v`.
fn insert_sorted_exec(x: String, v: Vec<String>) -> (r: Vec<String>)
    ensures
        views(r@) == insert_sorted(x@, views(v@)),
    decreases v@.len(),
{
    if v.len() == 0 {
        let mut r: Vec<String> = Vec::new();
        r.push(x);
        proof {
            assert(views(v@) =~= Seq::<Seq<char>>::empty());
            assert(views(r@) =~= seq![x@]);
        }
        r
    } else if str_lex_le(x.as_str(), v[0].as_str()) {
        let ghost vin = v@;
        let mut r: Vec<String> = Vec::new();
        r.push(x);
        let ghost head = r@;
        let mut v = v;
        r.append(&mut v);
        proof {
            lemma_views_add(head, vin);
            assert(views(head) =~= seq![x@]);
            assert(views(vin)[0] == vin[0]@);
            assert(insert_sorted(x@, views(vin)) == seq![x@] + views(vin));
        }
        r
    } else {
        let ghost vin = v@;
        let mut v = v;
        let first = v.remove(0);
        proof {
            assert(v@ =~= vin.skip(1));
            lemma_views_skip(vin, 1);
            assert(views(vin)[0] == vin[0]@);
        }
        let inserted = insert_sorted_exec(x, v);
        let mut r: Vec<String> = Vec::new();
        r.push(first);
        let ghost head = r@;
        let ghost tail = inserted@;
        let mut inserted = inserted;
        r.append(&mut inserted);
        proof {
            lemma_views_add(head, tail);
            assert(views(head) =~= seq![first@]);
            assert(insert_sorted(x@, views(vin)) == seq![views(vin)[0]] + insert_sorted(
                x@,
                views(vin).skip(1),
            ));
        }
        r
    }
}

/// Sorts the encodings by `lex_le`, mirroring `sort_lex`.
fn sort_lex_exec(v: Vec<String>) -> (r: Vec<String>)
    ensures
        views(r@) == sort_lex(views(v@)),
    decreases v@.len(),
{
    if v.len() == 0 {
        let r: Vec<String> = Vec::new();
        proof {
            assert(views(v@) =~= Seq::<Seq<char>>::empty());
            assert(views(r@) =~= Seq::<Seq<char>>::empty());
        }
        r
    } else {
        let ghost orig = v@;
        let mut v = v;
        let first = v.remove(0);
        proof {
            assert(v@ =~= orig.skip(1));
            lemma_views_skip(orig, 1);
        }
        let sorted = sort_lex_exec(v);
        insert_sorted_exec(first, sorted)
    }
}

/// Joins `v[i..]` with ";".
fn join_from(v: &Vec<String>, i: usize) -> (r: String)
    requires
        i <= v@.len(),
    ensures
        r@ == spec_join(views(v@).skip(i as int)),
    decreases v@.len() - i,
{
    if i == v.len() {
        proof {
            assert(views(v@).skip(i as int) =~= Seq::<Seq<char>>::empty());
        }
        String::new()
    } else if i + 1 == v.len() {
        proof {
            assert(views(v@).skip(i as int).len() == 1);
            assert(views(v@).skip(i as int)[0] == v@[i as int]@);
        }
        v[i].clone()
    } else {
        let rest = join_from(v, i + 1);
        proof {
            assert(views(v@).skip(i as int)[0] == v@[i as int]@);
            assert(views(v@).skip(i as int).skip(1) =~= views(v@).skip(i as int + 1));
        }
        v[i].clone().concat(";").concat(rest.as_str())
    }
}

/// Computes the canonical fingerprint of the tree's definition set.
pub fn fingerprint(tree: &CommandTree) -> (r: String)
    ensures
        r@ == spec_fingerprint_of(tree),
{
    let flat = flatten_from(&tree.entries, 0);
    proof {
        assert(tree.entries@.skip(0) =~= tree.entries@);
    }
    let sorted = sort_lex_exec(flat);
    let r = join_from(&sorted, 0);
    proof {
        assert(views(sorted@).skip(0) =~= views(sorted@));
    }
    r
}

/// Whether a stored fingerprint obliges a registration call for a tree
/// whose fingerprint is `fp`: exactly when the two differ.
pub open spec fn sync_needed(stored: Option<Seq<char>>, fp: Seq<char>) -> bool {
    stored != Some(fp)
}

/// One synchronization step. Computes the tree's fingerprint, compares it
/// with the stored one, and stores the new value exactly when they differ.
/// The result says whether the caller owes the platform a registration
/// call; guild configuration fields are never touched.
pub fn sync(tree: &CommandTree, store: &mut ConfigStore) -> (must_register: bool)
    requires
        old(store).wf(),
    ensures
        final(store).wf(),
        final(store).fields_map() == old(store).fields_map(),
        must_register == sync_needed(
            old(store).spec_fingerprint(),
            spec_fingerprint_of(tree),
        ),
        final(store).spec_fingerprint() == Some(spec_fingerprint_of(tree)),
{
    let fp = fingerprint(tree);
    let must_register = match store.get_fingerprint() {
        Some(stored) => !(stored == fp),
        None => true,
    };
    if must_register {
        store.set_fingerprint(fp);
    }
    must_register
}

/// Law: synchronization is idempotent. `sync` leaves the tree's own
/// fingerprint stored, and a second synchronization of an unchanged tree
/// finds it there, so it obliges no further registration call.
pub proof fn lemma_sync_idempotent(tree: &CommandTree)
    ensures
        !sync_needed(Some(spec_fingerprint_of(tree)), spec_fingerprint_of(tree)),
{
}

} // verus!
