//! Computing the set of type layouts that a root type transitively links to:
//! a fixed-point expansion over a table of type descriptions that removes
//! duplicate entries (types already visited) by comparing type names.

use vstd::prelude::*;
use vstd::string::StringSliceAdditionalSpecFns;
use vstd::utf8::encode_utf8_decode_utf8;

use crate::{contains_name, distinct_names, TypeLayoutInfo, TypeLayoutInfoView};

verus! {

/// The empty type list.
pub struct Empty;

/// A type list: a head type, and the list of the remaining types.
pub struct Cons<H, T> {
    pub head: H,
    pub tail: T,
}

/// A type-level list of types whose length is known from the list's shape
/// alone.
pub trait ComputeSet: Sized {
    /// How many types the list holds.
    spec fn spec_len() -> nat;

    /// Counts the types the list holds.
    fn len() -> (n: usize)
        requires
            Self::spec_len() <= usize::MAX,
        ensures
            n == Self::spec_len(),
    ;
}

impl ComputeSet for Empty {
    open spec fn spec_len() -> nat {
        0
    }

    fn len() -> (n: usize) {
        0
    }
}

impl<H, T: ComputeSet> ComputeSet for Cons<H, T> {
    open spec fn spec_len() -> nat {
        T::spec_len() + 1
    }

    fn len() -> (n: usize) {
        T::len() + 1
    }
}

/// A type list that knows whether it holds anything.
pub trait ExpandTypeSet: ComputeSet {
    /// Whether the list holds no type.
    spec fn spec_is_empty() -> bool;

    /// Tells whether the list holds no type: exactly when its length is
    /// zero.
    fn is_empty() -> (r: bool)
        ensures
            r == Self::spec_is_empty(),
            r == (Self::spec_len() == 0),
    ;
}

impl ExpandTypeSet for Empty {
    open spec fn spec_is_empty() -> bool {
        true
    }

    fn is_empty() -> (r: bool) {
        true
    }
}

impl<H, T: ExpandTypeSet> ExpandTypeSet for Cons<H, T> {
    open spec fn spec_is_empty() -> bool {
        false
    }

    fn is_empty() -> (r: bool) {
        false
    }
}

/// One entry of a type table: a type's layout, and the names of the types
/// that layout links to (field types, variant field types, pointees).
pub struct TypeNode {
    pub info: TypeLayoutInfo,
    pub links: Vec<String>,
}

/// The mathematical model of a [`TypeNode`].
#[verifier::ext_equal]
pub struct TypeNodeView {
    pub info: TypeLayoutInfoView,
    pub links: Seq<Seq<char>>,
}

impl View for TypeNode {
    type V = TypeNodeView;

    open spec fn view(&self) -> TypeNodeView {
        TypeNodeView { info: self.info@, links: self.links@.map_values(|s: String| s@) }
    }
}

/// The listed layouts as their models.
pub open spec fn layouts_view(tys: Seq<TypeLayoutInfo>) -> Seq<TypeLayoutInfoView> {
    tys.map_values(|t: TypeLayoutInfo| t@)
}

/// The listed strings as their models.
pub open spec fn strings_view(ss: Seq<String>) -> Seq<Seq<char>> {
    ss.map_values(|s: String| s@)
}

/// The table entries as their models.
pub open spec fn table_view(table: Seq<TypeNode>) -> Seq<TypeNodeView> {
    table.map_values(|n: TypeNode| n@)
}

/// A type that can name the types its layout links to, so that the type-set
/// expansion can walk its graph.
pub trait ComputeTypeSet: crate::TypeLayout {
    /// The names of the types this type links to.
    spec fn spec_links() -> Seq<Seq<char>>;

    /// This type's table entry: its layout, and the names it links to.
    fn type_node() -> (n: TypeNode)
        ensures
            n@.info == Self::spec_layout(),
            n@.links == Self::spec_links(),
    ;
}

/// Whether some entry of `table` describes the type named `name`.
pub open spec fn table_contains(table: Seq<TypeNodeView>, name: Seq<char>) -> bool {
    exists|i: int| 0 <= i < table.len() && table[i].info.name == name
}

/// The index of the entry of `table` that describes the type named `name`.
pub open spec fn table_index_of(table: Seq<TypeNodeView>, name: Seq<char>) -> int {
    choose|i: int| 0 <= i < table.len() && table[i].info.name == name
}

/// The entry of `table` that describes the type named `name`.
pub open spec fn table_entry(table: Seq<TypeNodeView>, name: Seq<char>) -> TypeNodeView {
    table[table_index_of(table, name)]
}

/// No two entries of `table` describe one type name.
pub open spec fn table_distinct(table: Seq<TypeNodeView>) -> bool {
    forall|i: int, j: int| 0 <= i < j < table.len() ==> table[i].info.name != table[j].info.name
}

/// Every name an entry of `table` links to is itself described by an entry.
pub open spec fn table_closed(table: Seq<TypeNodeView>) -> bool {
    forall|i: int, j: int|
        #![trigger table[i].links[j]]
        0 <= i < table.len() && 0 <= j < table[i].links.len() ==> table_contains(
            table,
            table[i].links[j],
        )
}

/// The names of the listed layouts, in order.
pub open spec fn names_seq(tys: Seq<TypeLayoutInfoView>) -> Seq<Seq<char>> {
    tys.map_values(|t: TypeLayoutInfoView| t.name)
}

/// The names of the listed layouts, as a set.
pub open spec fn names_of(tys: Seq<TypeLayoutInfoView>) -> Set<Seq<char>> {
    names_seq(tys).to_set()
}

/// The names of the table's entries, in order.
pub open spec fn table_names(table: Seq<TypeNodeView>) -> Seq<Seq<char>> {
    table.map_values(|n: TypeNodeView| n.info.name)
}

/// Whether the name set `names` is closed under `table`: with each name it
/// holds, it holds every name that name's entry links to.
pub open spec fn names_closed(table: Seq<TypeNodeView>, names: Set<Seq<char>>) -> bool {
    forall|i: int, j: int|
        #![trigger names.contains(table[i].links[j])]
        0 <= i < table.len() && names.contains(table[i].info.name) && 0 <= j
            < table[i].links.len() ==> names.contains(table[i].links[j])
}

/// Whether `s` holds every listed name.
pub open spec fn all_in(names: Seq<Seq<char>>, s: Set<Seq<char>>) -> bool {
    forall|k: int| 0 <= k < names.len() ==> s.contains(#[trigger] names[k])
}

/// Whether one of the first `i` layouts of `ov` has a table entry linking
/// to `name`.
pub open spec fn linked_from_earlier(
    table: Seq<TypeNodeView>,
    ov: Seq<TypeLayoutInfoView>,
    i: int,
    name: Seq<char>,
) -> bool {
    exists|j: int, l: int|
        0 <= j < i && 0 <= l < table_entry(table, ov[j].name).links.len() && table_entry(
            table,
            ov[j].name,
        ).links[l] == name
}

/// The names reachable from `root` along the links of `table`: the least
/// name set that holds `root` and is closed under `table`. A name is
/// reachable exactly when every closed set holding `root` holds it.
pub open spec fn reachable_names(table: Seq<TypeNodeView>, root: Seq<char>) -> Set<Seq<char>> {
    Set::new(
        |n: Seq<char>|
            forall|s: Set<Seq<char>>|
                s.contains(root) && #[trigger] names_closed(table, s) ==> s.contains(n),
    )
}

/// The reachable names are themselves a closed set that holds the root —
/// and the least one: they are a subset of every closed set holding the
/// root, by their very definition.
pub proof fn lemma_reachable_names(table: Seq<TypeNodeView>, root: Seq<char>)
    ensures
        reachable_names(table, root).contains(root),
        names_closed(table, reachable_names(table, root)),
{
    let reach = reachable_names(table, root);
    assert forall|i: int, j: int|
        0 <= i < table.len() && reach.contains(table[i].info.name) && 0 <= j
            < table[i].links.len() implies reach.contains(#[trigger] table[i].links[j]) by {
        assert forall|s: Set<Seq<char>>|
            s.contains(root) && #[trigger] names_closed(table, s) implies s.contains(
            table[i].links[j],
        ) by {
            assert(s.contains(table[i].info.name));
        }
    }
}

/// Whether two string slices hold the same characters, decided byte by byte.
pub fn str_eq(a: &str, b: &str) -> (r: bool)
    ensures
        r == (a@ == b@),
{
    let abytes = a.as_bytes();
    let bbytes = b.as_bytes();
    if abytes.len() != bbytes.len() {
        // Equal character sequences encode to equal byte sequences.
        assert(a@ != b@);
        return false;
    }
    let mut i: usize = 0;
    while i < abytes.len()
        invariant
            i <= abytes.len(),
            abytes.len() == bbytes.len(),
            abytes@ == a.spec_bytes(),
            bbytes@ == b.spec_bytes(),
            forall|j: int| 0 <= j < i ==> abytes@[j] == bbytes@[j],
        decreases abytes.len() - i,
    {
        if abytes[i] != bbytes[i] {
            assert(a@ != b@) by {
                if a@ == b@ {
                    assert(abytes@[i as int] == bbytes@[i as int]);
                }
            }
            return false;
        }
        i += 1;
    }
    proof {
        assert(a.spec_bytes() =~= b.spec_bytes());
        encode_utf8_decode_utf8(a@);
        encode_utf8_decode_utf8(b@);
    }
    true
}

/// Whether some layout in `tys` carries the type name `name`.
pub fn contains_layout_name(tys: &Vec<TypeLayoutInfo>, name: &str) -> (r: bool)
    ensures
        r == contains_name(layouts_view(tys@), name@),
{
    let mut i: usize = 0;
    while i < tys.len()
        invariant
            i <= tys@.len(),
            forall|j: int| 0 <= j < i ==> #[trigger] layouts_view(tys@)[j].name != name@,
        decreases tys@.len() - i,
    {
        if str_eq(tys[i].name.as_str(), name) {
            proof {
                assert(layouts_view(tys@)[i as int].name == name@);
            }
            return true;
        }
        i = i + 1;
    }
    false
}

/// The position of the table entry describing `name`, if one exists.
fn find_node(table: &Vec<TypeNode>, name: &str) -> (r: Option<usize>)
    ensures
        match r {
            Some(i) => i < table@.len() && table_view(table@)[i as int].info.name == name@,
            None => !table_contains(table_view(table@), name@),
        },
{
    let mut i: usize = 0;
    while i < table.len()
        invariant
            i <= table@.len(),
            forall|j: int| 0 <= j < i ==> #[trigger] table_view(table@)[j].info.name != name@,
        decreases table@.len() - i,
    {
        if str_eq(table[i].info.name.as_str(), name) {
            proof {
                assert(table_view(table@)[i as int].info.name == name@);
            }
            return Some(i);
        }
        i = i + 1;
    }
    None
}

/// Appends a copy of every listed name to `pending`.
fn push_links(pending: &mut Vec<String>, links: &Vec<String>)
    ensures
        strings_view(final(pending)@) == strings_view(old(pending)@) + strings_view(links@),
{
    let mut j: usize = 0;
    while j < links.len()
        invariant
            j <= links@.len(),
            strings_view(pending@) == strings_view(old(pending)@) + strings_view(links@).take(
                j as int,
            ),
        decreases links@.len() - j,
    {
        let l = links[j].clone();
        proof {
            assert(strings_view(pending@.push(l)) =~= strings_view(pending@).push(l@));
            assert(strings_view(pending@).push(links@[j as int]@) =~= strings_view(old(pending)@)
                + strings_view(links@).take(j as int + 1));
        }
        pending.push(l);
        j = j + 1;
    }
    proof {
        assert(strings_view(links@).take(links@.len() as int) =~= strings_view(links@));
    }
}

/// Expands the type named `root` into the list of every layout it
/// transitively links to in `table`, each name listed once: the computation
/// discovers the graph lazily, skips the types already visited, and stops
/// when nothing new is left, cycles notwithstanding.
///
/// The result holds the layouts of exactly the reachable names — the least
/// name set that holds `root` and is closed under the table's links — and
/// starts with the root's own layout.
pub fn typeset_tys(table: &Vec<TypeNode>, root: &str) -> (out: Vec<TypeLayoutInfo>)
    requires
        table_distinct(table_view(table@)),
        table_closed(table_view(table@)),
        table_contains(table_view(table@), root@),
    ensures
        distinct_names(layouts_view(out@)),
        forall|i: int|
            0 <= i < out@.len() ==> table_contains(
                table_view(table@),
                #[trigger] layouts_view(out@)[i].name,
            ) && layouts_view(out@)[i] == table_entry(
                table_view(table@),
                layouts_view(out@)[i].name,
            ).info,
        names_of(layouts_view(out@)) == reachable_names(table_view(table@), root@),
        out@.len() > 0,
        layouts_view(out@)[0] == table_entry(table_view(table@), root@).info,
        forall|i: int|
            1 <= i < out@.len() ==> #[trigger] linked_from_earlier(
                table_view(table@),
                layouts_view(out@),
                i,
                layouts_view(out@)[i].name,
            ),
{
    let ghost tv = table_view(table@);
    let mut out: Vec<TypeLayoutInfo> = Vec::new();
    let mut pending: Vec<String> = Vec::new();
    pending.push(root.to_owned());
    proof {
        assert(strings_view(pending@) =~= seq![root@]);
    }
    while pending.len() > 0
        invariant
            tv == table_view(table@),
            table_distinct(tv),
            table_closed(tv),
            table_contains(tv, root@),
            distinct_names(layouts_view(out@)),
            forall|i: int|
                0 <= i < out@.len() ==> table_contains(tv, #[trigger] layouts_view(out@)[i].name)
                    && layouts_view(out@)[i] == table_entry(
                    tv,
                    layouts_view(out@)[i].name,
                ).info,
            forall|k: int|
                0 <= k < pending@.len() ==> table_contains(
                    tv,
                    #[trigger] strings_view(pending@)[k],
                ),
            forall|s: Set<Seq<char>>|
                s.contains(root@) && #[trigger] names_closed(tv, s) ==> all_in(
                    names_seq(layouts_view(out@)),
                    s,
                ) && all_in(strings_view(pending@), s),
            forall|i: int, j: int|
                #![trigger table_entry(tv, layouts_view(out@)[i].name).links[j]]
                0 <= i < out@.len() && 0 <= j < table_entry(
                    tv,
                    layouts_view(out@)[i].name,
                ).links.len() ==> contains_name(
                    layouts_view(out@),
                    table_entry(tv, layouts_view(out@)[i].name).links[j],
                ) || strings_view(pending@).contains(
                    table_entry(tv, layouts_view(out@)[i].name).links[j],
                ),
            out@.len() == 0 ==> strings_view(pending@) == seq![root@],
            out@.len() > 0 ==> layouts_view(out@)[0] == table_entry(tv, root@).info,
            out@.len() > 0 ==> contains_name(layouts_view(out@), root@),
            out@.len() <= table@.len(),
            forall|i: int|
                1 <= i < out@.len() ==> #[trigger] linked_from_earlier(
                    tv,
                    layouts_view(out@),
                    i,
                    layouts_view(out@)[i].name,
                ),
            forall|k: int|
                0 <= k < pending@.len() ==> #[trigger] strings_view(pending@)[k] == root@
                    || linked_from_earlier(
                    tv,
                    layouts_view(out@),
                    out@.len() as int,
                    strings_view(pending@)[k],
                ),
        decreases table@.len() - out@.len(), pending@.len(),
    {
        let ghost prev_ov = layouts_view(out@);
        let ghost prev_pv = strings_view(pending@);
        let name = pending.pop().unwrap();
        proof {
            assert(strings_view(pending@) =~= prev_pv.drop_last());
            assert(name@ == prev_pv.last());
            assert(table_contains(tv, name@));
        }
        if !contains_layout_name(&out, name.as_str()) {
            let found = find_node(table, name.as_str());
            proof {
                assert(found is Some);
            }
            let idx = found.unwrap();
            proof {
                let ei = table_index_of(tv, name@);
                assert(0 <= ei < tv.len() && tv[ei].info.name == name@);
                assert(table_entry(tv, name@) == tv[idx as int]);
            }
            out.push(table[idx].info.clone());
            push_links(&mut pending, &table[idx].links);
            proof {
                let ov2 = layouts_view(out@);
                let pv2 = strings_view(pending@);
                let linksv = tv[idx as int].links;
                assert(ov2 =~= prev_ov.push(tv[idx as int].info));
                assert(pv2 =~= prev_pv.drop_last() + linksv) by {
                    assert(table@[idx as int]@.links == linksv);
                }
                // The new layout's name was not yet listed, so names stay
                // distinct, and the new entry matches its table entry.
                assert(distinct_names(ov2));
                // Every pending name is still described by the table: the
                // appended ones are links, and the table is closed.
                assert forall|k: int| 0 <= k < pv2.len() implies table_contains(
                    tv,
                    #[trigger] pv2[k],
                ) by {
                    if k >= prev_pv.len() - 1 {
                        assert(pv2[k] == tv[idx as int].links[k - (prev_pv.len() - 1)]);
                    } else {
                        assert(pv2[k] == prev_pv[k]);
                    }
                }
                // Every closed set holding the root still covers everything
                // listed or pending: the popped name was covered, and a
                // closed set that holds it holds its links.
                assert forall|s: Set<Seq<char>>|
                    s.contains(root@) && #[trigger] names_closed(tv, s) implies all_in(
                    names_seq(ov2),
                    s,
                ) && all_in(pv2, s) by {
                    assert(all_in(names_seq(prev_ov), s) && all_in(prev_pv, s));
                    assert(s.contains(prev_pv[prev_pv.len() - 1]));
                    assert(s.contains(tv[idx as int].info.name));
                    assert forall|k: int| 0 <= k < pv2.len() implies s.contains(
                        #[trigger] pv2[k],
                    ) by {
                        if k >= prev_pv.len() - 1 {
                            assert(pv2[k] == tv[idx as int].links[k - (prev_pv.len() - 1)]);
                            assert(s.contains(tv[idx as int].links[k - (prev_pv.len() - 1)]));
                        } else {
                            assert(pv2[k] == prev_pv[k]);
                        }
                    }
                    assert forall|k: int| 0 <= k < names_seq(ov2).len() implies s.contains(
                        #[trigger] names_seq(ov2)[k],
                    ) by {
                        if k < prev_ov.len() {
                            assert(names_seq(ov2)[k] == names_seq(prev_ov)[k]);
                        } else {
                            assert(names_seq(ov2)[k] == name@);
                        }
                    }
                }
                // Every link of every listed layout is still listed or
                // pending: a link that only the popped name accounted for is
                // a link to the newly listed layout itself.
                assert forall|i: int, j: int|
                    0 <= i < ov2.len() && 0 <= j < table_entry(
                        tv,
                        ov2[i].name,
                    ).links.len() implies contains_name(
                    ov2,
                    #[trigger] table_entry(tv, ov2[i].name).links[j],
                ) || pv2.contains(table_entry(tv, ov2[i].name).links[j]) by {
                    let l = table_entry(tv, ov2[i].name).links[j];
                    if i < prev_ov.len() {
                        assert(ov2[i] == prev_ov[i]);
                        assert(contains_name(prev_ov, l) || prev_pv.contains(l));
                        if contains_name(prev_ov, l) {
                            let w = choose|w: int|
                                0 <= w < prev_ov.len() && prev_ov[w].name == l;
                            assert(ov2[w].name == l);
                            assert(contains_name(ov2, l));
                        } else {
                            let k = choose|k: int| 0 <= k < prev_pv.len() && prev_pv[k] == l;
                            if k < prev_pv.len() - 1 {
                                assert(pv2[k] == l);
                                assert(pv2.contains(l));
                            } else {
                                assert(l == name@);
                                assert(ov2[prev_ov.len() as int].name == name@);
                                assert(contains_name(ov2, l));
                            }
                        }
                    } else {
                        assert(ov2[i] == tv[idx as int].info);
                        assert(ov2[i].name == name@);
                        assert(table_entry(tv, ov2[i].name) == tv[idx as int]);
                        assert(pv2[prev_pv.len() - 1 + j] == l);
                        assert(pv2.contains(l));
                    }
                }
                // The listed names stay within the table's names, so the
                // list can never outgrow the table.
                let ns2 = names_seq(ov2);
                assert(ns2.no_duplicates());
                ns2.unique_seq_to_set();
                vstd::seq_lib::seq_to_set_is_finite(table_names(tv));
                table_names(tv).lemma_cardinality_of_set();
                assert forall|x: Seq<char>| names_of(ov2).contains(x) implies table_names(
                    tv,
                ).to_set().contains(x) by {
                    let w = choose|w: int| 0 <= w < ns2.len() && ns2[w] == x;
                    let wi = table_index_of(tv, x);
                    assert(table_names(tv)[wi] == x);
                    assert(table_names(tv).contains(x));
                }
                vstd::set_lib::lemma_len_subset(names_of(ov2), table_names(tv).to_set());
                assert(out@.len() <= table@.len());
                // Every layout after the root is linked to by an earlier
                // one: the popped name was a link of some listed layout,
                // and the appended links come from the newly listed one.
                assert forall|i: int| 1 <= i < ov2.len() implies linked_from_earlier(
                    tv,
                    ov2,
                    i,
                    ov2[i].name,
                ) by {
                    if i < prev_ov.len() {
                        assert(linked_from_earlier(tv, prev_ov, i, prev_ov[i].name));
                        let (j, l) = choose|j: int, l: int|
                            0 <= j < i && 0 <= l < table_entry(tv, prev_ov[j].name).links.len()
                                && table_entry(tv, prev_ov[j].name).links[l] == prev_ov[i].name;
                        assert(ov2[j] == prev_ov[j]);
                        assert(ov2[i] == prev_ov[i]);
                        assert(table_entry(tv, ov2[j].name).links[l] == ov2[i].name);
                    } else {
                        assert(ov2[i].name == name@);
                        assert(prev_ov.len() >= 1);
                        assert(name@ != root@);
                        assert(prev_pv[prev_pv.len() - 1] == name@);
                        assert(linked_from_earlier(tv, prev_ov, prev_ov.len() as int, name@));
                        let (j, l) = choose|j: int, l: int|
                            0 <= j < prev_ov.len() && 0 <= l < table_entry(
                                tv,
                                prev_ov[j].name,
                            ).links.len() && table_entry(tv, prev_ov[j].name).links[l] == name@;
                        assert(ov2[j] == prev_ov[j]);
                        assert(table_entry(tv, ov2[j].name).links[l] == ov2[i].name);
                    }
                }
                // Every pending name is the root or a link of a listed
                // layout.
                assert forall|k: int| 0 <= k < pv2.len() implies pv2[k] == root@
                    || linked_from_earlier(tv, ov2, ov2.len() as int, pv2[k]) by {
                    if k < prev_pv.len() - 1 {
                        assert(pv2[k] == prev_pv[k]);
                        if prev_pv[k] != root@ {
                            assert(linked_from_earlier(
                                tv,
                                prev_ov,
                                prev_ov.len() as int,
                                prev_pv[k],
                            ));
                            let (j, l) = choose|j: int, l: int|
                                0 <= j < prev_ov.len() && 0 <= l < table_entry(
                                    tv,
                                    prev_ov[j].name,
                                ).links.len() && table_entry(tv, prev_ov[j].name).links[l]
                                    == prev_pv[k];
                            assert(ov2[j] == prev_ov[j]);
                            assert(table_entry(tv, ov2[j].name).links[l] == pv2[k]);
                        }
                    } else {
                        let l = k - (prev_pv.len() - 1);
                        assert(pv2[k] == tv[idx as int].links[l]);
                        assert(ov2[prev_ov.len() as int].name == name@);
                        assert(table_entry(tv, ov2[prev_ov.len() as int].name)
                            == tv[idx as int]);
                        assert(table_entry(tv, ov2[prev_ov.len() as int].name).links[l]
                            == pv2[k]);
                    }
                }
                // The first listed layout is the root's: the first popped
                // name was the root.
                if prev_ov.len() == 0 {
                    assert(prev_pv == seq![root@]);
                    assert(name@ == root@);
                    assert(ov2[0] == table_entry(tv, root@).info);
                    assert(contains_name(ov2, root@)) by {
                        assert(ov2[0].name == root@);
                    }
                } else {
                    assert(contains_name(ov2, root@)) by {
                        let w = choose|w: int| 0 <= w < prev_ov.len() && prev_ov[w].name == root@;
                        assert(ov2[w].name == root@);
                    }
                }
            }
        } else {
            proof {
                let ov = layouts_view(out@);
                let pv2 = strings_view(pending@);
                assert(contains_name(ov, name@));
                // A link that only the popped name accounted for is a link
                // to a layout already listed.
                assert forall|i: int, j: int|
                    0 <= i < ov.len() && 0 <= j < table_entry(
                        tv,
                        ov[i].name,
                    ).links.len() implies contains_name(
                    ov,
                    #[trigger] table_entry(tv, ov[i].name).links[j],
                ) || pv2.contains(table_entry(tv, ov[i].name).links[j]) by {
                    let l = table_entry(tv, ov[i].name).links[j];
                    if !contains_name(ov, l) {
                        assert(prev_pv.contains(l));
                        let k = choose|k: int| 0 <= k < prev_pv.len() && prev_pv[k] == l;
                        if k < prev_pv.len() - 1 {
                            assert(pv2[k] == l);
                            assert(pv2.contains(l));
                        } else {
                            assert(l == name@);
                        }
                    }
                }
                assert forall|s: Set<Seq<char>>|
                    s.contains(root@) && #[trigger] names_closed(tv, s) implies all_in(
                    names_seq(layouts_view(out@)),
                    s,
                ) && all_in(pv2, s) by {
                    assert(all_in(prev_pv, s));
                    assert forall|k: int| 0 <= k < pv2.len() implies s.contains(
                        #[trigger] pv2[k],
                    ) by {
                        assert(pv2[k] == prev_pv[k]);
                    }
                }
                // The shortened pending list still holds only the root and
                // names linked from listed layouts.
                assert forall|k: int| 0 <= k < pv2.len() implies pv2[k] == root@
                    || linked_from_earlier(tv, ov, ov.len() as int, pv2[k]) by {
                    assert(pv2[k] == prev_pv[k]);
                }
            }
        }
    }
    proof {
        let ov = layouts_view(out@);
        // The pending list is empty, so everything any listed layout links
        // to is itself listed: the listed names form a closed set that
        // holds the root, and every closed set holding the root covers the
        // listed names. So the listed names are exactly the reachable ones.
        assert(out@.len() > 0);
        assert(names_of(ov).contains(root@)) by {
            let w = choose|w: int| 0 <= w < ov.len() && ov[w].name == root@;
            assert(names_seq(ov)[w] == root@);
            assert(names_seq(ov).contains(root@));
        }
        assert(names_closed(tv, names_of(ov))) by {
            assert forall|i: int, j: int|
                0 <= i < tv.len() && names_of(ov).contains(tv[i].info.name) && 0 <= j
                    < tv[i].links.len() implies names_of(ov).contains(
                #[trigger] tv[i].links[j],
            ) by {
                let x = tv[i].info.name;
                let w = choose|w: int| 0 <= w < names_seq(ov).len() && names_seq(ov)[w] == x;
                assert(ov[w].name == x);
                assert(table_entry(tv, x) == tv[i]) by {
                    let ei = table_index_of(tv, x);
                    assert(0 <= ei < tv.len() && tv[ei].info.name == x);
                }
                assert(contains_name(ov, tv[i].links[j]) || strings_view(pending@).contains(
                    tv[i].links[j],
                )) by {
                    assert(table_entry(tv, ov[w].name).links[j] == tv[i].links[j]);
                }
                assert(strings_view(pending@).len() == 0);
                let u = choose|u: int| 0 <= u < ov.len() && ov[u].name == tv[i].links[j];
                assert(names_seq(ov)[u] == tv[i].links[j]);
                assert(names_seq(ov).contains(tv[i].links[j]));
            }
        }
        assert forall|n: Seq<char>| reachable_names(tv, root@).contains(n) implies names_of(
            ov,
        ).contains(n) by {
            assert(names_of(ov).contains(root@) && names_closed(tv, names_of(ov)));
        }
        assert forall|n: Seq<char>| names_of(ov).contains(n) implies reachable_names(
            tv,
            root@,
        ).contains(n) by {
            assert forall|s: Set<Seq<char>>|
                s.contains(root@) && #[trigger] names_closed(tv, s) implies s.contains(n) by {
                assert(all_in(names_seq(ov), s));
                let w = choose|w: int| 0 <= w < names_seq(ov).len() && names_seq(ov)[w] == n;
                assert(s.contains(names_seq(ov)[w]));
            }
        }
        assert(names_of(ov) =~= reachable_names(tv, root@));
    }
    out
}

/// How many distinct type layouts the type named `root` transitively links
/// to in `table`, itself included: the size of the reachable name set.
pub fn typset_len(table: &Vec<TypeNode>, root: &str) -> (n: usize)
    requires
        table_distinct(table_view(table@)),
        table_closed(table_view(table@)),
        table_contains(table_view(table@), root@),
    ensures
        n == reachable_names(table_view(table@), root@).len(),
        n > 0,
{
    let out = typeset_tys(table, root);
    proof {
        let ov = layouts_view(out@);
        let ns = names_seq(ov);
        assert(ns.no_duplicates());
        ns.unique_seq_to_set();
    }
    out.len()
}

} // verus!
