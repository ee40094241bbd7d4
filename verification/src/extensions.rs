//! Certificate extensions: the parsed bodies, the extension itself, and the
//! map from identifier to extension that a certificate holds.

use vstd::prelude::*;
use crate::name::X509Name;
use crate::oid::{lemma_oid_order_total, lemma_oid_order_transitive, oid_before, Oid, OidView};

verus! {

/// Basic constraints: whether the subject is a CA, and how long a path may follow.
#[derive(Debug, Clone, Copy, PartialEq, Eq)]
pub struct BasicConstraints {
    pub ca: bool,
    pub path_len_constraint: Option<u32>,
}

/// Key usage: the bits of the flags, the first bit of the bit string lowest.
#[derive(Debug, Clone, Copy, PartialEq, Eq)]
pub struct KeyUsage {
    pub flags: u16,
}

/// Extended key usage: the purposes that are known by name, and the others.
#[derive(Debug, PartialEq)]
pub struct ExtendedKeyUsage<'a> {
    pub any: bool,
    pub server_auth: bool,
    pub client_auth: bool,
    pub code_signing: bool,
    pub email_protection: bool,
    pub time_stamping: bool,
    pub ocsp_signing: bool,
    pub other: Vec<Oid<'a>>,
}

/// Policy constraints.
#[derive(Debug, Clone, Copy, PartialEq, Eq)]
pub struct PolicyConstraints {
    pub require_explicit_policy: Option<u32>,
    pub inhibit_policy_mapping: Option<u32>,
}

/// Inhibit any-policy: the number of certificates after which any-policy is no longer allowed.
#[derive(Debug, Clone, Copy, PartialEq, Eq)]
pub struct InhibitAnyPolicy {
    pub skip_certs: u32,
}

/// One policy mapping: a policy of the issuer's domain and the policy of the
/// subject's domain that it is held equal to.
#[derive(Debug, Clone, Copy, PartialEq, Eq)]
pub struct PolicyMapping<'a> {
    pub issuer_domain_policy: Oid<'a>,
    pub subject_domain_policy: Oid<'a>,
}

/// Policy mappings, in stored order.
#[derive(Debug, PartialEq)]
pub struct PolicyMappings<'a> {
    pub mappings: Vec<PolicyMapping<'a>>,
}

/// A general name.
#[derive(Debug, PartialEq)]
pub enum GeneralName<'a> {
    OtherName(Oid<'a>, &'a [u8]),
    Rfc822Name(&'a str),
    DnsName(&'a str),
    DirectoryName(X509Name<'a>),
    Uri(&'a str),
    IpAddress(&'a [u8]),
    RegisteredId(Oid<'a>),
    /// A general name of a kind that is not decoded further, with its tag number.
    Unsupported(u32, &'a [u8]),
}

/// Subject alternative names, in stored order.
#[derive(Debug, PartialEq)]
pub struct SubjectAlternativeName<'a> {
    pub general_names: Vec<GeneralName<'a>>,
}

/// One subtree of a name constraint.
#[derive(Debug, PartialEq)]
pub struct GeneralSubtree<'a> {
    pub base: GeneralName<'a>,
}

/// Name constraints: the subtrees that are permitted and those that are excluded.
#[derive(Debug, PartialEq)]
pub struct NameConstraints<'a> {
    pub permitted_subtrees: Option<Vec<GeneralSubtree<'a>>>,
    pub excluded_subtrees: Option<Vec<GeneralSubtree<'a>>>,
}

/// The parsed body of an extension: one of the kinds that are known, or the
/// mark of an extension that was not parsed.
#[derive(Debug, PartialEq)]
pub enum ParsedExtension<'a> {
    /// An extension of a kind that is not parsed: only its raw bytes are kept.
    UnsupportedExtension,
    BasicConstraints(BasicConstraints),
    KeyUsage(KeyUsage),
    ExtendedKeyUsage(ExtendedKeyUsage<'a>),
    PolicyConstraints(PolicyConstraints),
    InhibitAnyPolicy(InhibitAnyPolicy),
    PolicyMappings(PolicyMappings<'a>),
    SubjectAlternativeName(SubjectAlternativeName<'a>),
    NameConstraints(NameConstraints<'a>),
}

/// An extension: its identifier, whether it is critical, its raw bytes, and its parsed body.
#[derive(Debug, PartialEq)]
pub struct X509Extension<'a> {
    pub oid: Oid<'a>,
    pub critical: bool,
    pub value: &'a [u8],
    pub parsed_extension: ParsedExtension<'a>,
}

impl<'a> X509Extension<'a> {
    /// An extension of these four parts.
    pub fn new(
        oid: Oid<'a>,
        critical: bool,
        value: &'a [u8],
        parsed_extension: ParsedExtension<'a>,
    ) -> (ext: X509Extension<'a>)
        ensures
            ext == (X509Extension { oid, critical, value, parsed_extension }),
    {
        X509Extension { oid, critical, value, parsed_extension }
    }

    /// The parsed body, which is [`ParsedExtension::UnsupportedExtension`] for
    /// an extension of a kind that is not parsed.
    pub fn parsed_extension(&self) -> (parsed: &ParsedExtension<'a>)
        ensures
            *parsed == self.parsed_extension,
    {
        &self.parsed_extension
    }
}

/// The map that a list of extensions stands for: each identifier with the
/// last extension of the list that bears it.
pub open spec fn map_of<'a>(entries: Seq<X509Extension<'a>>) -> Map<OidView, X509Extension<'a>>
    decreases entries.len(),
{
    if entries.len() == 0 {
        Map::empty()
    } else {
        map_of(entries.drop_last()).insert(entries.last().oid@, entries.last())
    }
}

/// Whether no two extensions of the list bear the same identifier.
pub open spec fn distinct_oids<'a>(entries: Seq<X509Extension<'a>>) -> bool {
    forall|i: int, j: int|
        0 <= i < j < entries.len() ==> (#[trigger] entries[i]).oid@ != (#[trigger] entries[j]).oid@
}

/// The identifiers of the map are those of the list.
pub proof fn lemma_map_of_dom<'a>(entries: Seq<X509Extension<'a>>, oid: OidView)
    ensures
        map_of(entries).dom().contains(oid) <==> exists|i: int|
            0 <= i < entries.len() && (#[trigger] entries[i]).oid@ == oid,
    decreases entries.len(),
{
    if entries.len() > 0 {
        let shorter = entries.drop_last();
        lemma_map_of_dom(shorter, oid);
        if map_of(entries).dom().contains(oid) {
            if entries.last().oid@ == oid {
                assert(entries[entries.len() - 1].oid@ == oid);
            } else {
                let i = choose|i: int| 0 <= i < shorter.len() && (#[trigger] shorter[i]).oid@ == oid;
                assert(entries[i].oid@ == oid);
            }
        }
        if exists|i: int| 0 <= i < entries.len() && (#[trigger] entries[i]).oid@ == oid {
            let i = choose|i: int| 0 <= i < entries.len() && (#[trigger] entries[i]).oid@ == oid;
            if i < entries.len() - 1 {
                assert(shorter[i].oid@ == oid);
            }
        }
    }
}

/// Where several extensions of the list bear one identifier, the map holds
/// the last of them: the extension at place `i` is found under its
/// identifier if no later extension bears the same.
pub proof fn lemma_last_wins<'a>(entries: Seq<X509Extension<'a>>, i: int)
    requires
        0 <= i < entries.len(),
        forall|j: int| i < j < entries.len() ==> (#[trigger] entries[j]).oid@ != entries[i].oid@,
    ensures
        map_of(entries).dom().contains(entries[i].oid@),
        map_of(entries)[entries[i].oid@] == entries[i],
    decreases entries.len(),
{
    if i < entries.len() - 1 {
        let shorter = entries.drop_last();
        assert forall|j: int| i < j < shorter.len() implies (#[trigger] shorter[j]).oid@
            != shorter[i].oid@ by {
            assert(entries[j].oid@ != entries[i].oid@);
        }
        lemma_last_wins(shorter, i);
        assert(entries[entries.len() - 1].oid@ != entries[i].oid@);
    }
}

/// Where no identifier occurs twice, the map holds each extension of the
/// list under its identifier.
pub proof fn lemma_map_of_index<'a>(entries: Seq<X509Extension<'a>>, i: int)
    requires
        distinct_oids(entries),
        0 <= i < entries.len(),
    ensures
        map_of(entries).dom().contains(entries[i].oid@),
        map_of(entries)[entries[i].oid@] == entries[i],
{
    assert forall|j: int| i < j < entries.len() implies (#[trigger] entries[j]).oid@
        != entries[i].oid@ by {
        assert(entries[i].oid@ != entries[j].oid@);
    }
    lemma_last_wins(entries, i);
}

/// Whether the extensions of the list stand in the order of their
/// identifiers, each before all that follow.
pub open spec fn sorted_by_oid<'a>(entries: Seq<X509Extension<'a>>) -> bool {
    forall|i: int, j: int|
        0 <= i < j < entries.len() ==> oid_before(
            (#[trigger] entries[i]).oid@,
            (#[trigger] entries[j]).oid@,
        )
}

/// In a list that stands in the order of its identifiers no identifier occurs twice.
pub proof fn lemma_sorted_is_distinct<'a>(entries: Seq<X509Extension<'a>>)
    requires
        sorted_by_oid(entries),
    ensures
        distinct_oids(entries),
{
    assert forall|i: int, j: int| 0 <= i < j < entries.len() implies (#[trigger] entries[i]).oid@
        != (#[trigger] entries[j]).oid@ by {
        lemma_oid_order_total(entries[i].oid@, entries[j].oid@);
    }
}

/// A list without repeated identifiers stands for the map that holds each
/// extension of the list under its identifier, and nothing else.
proof fn lemma_map_of_is<'a>(
    entries: Seq<X509Extension<'a>>,
    expected: Map<OidView, X509Extension<'a>>,
)
    requires
        distinct_oids(entries),
        forall|i: int|
            0 <= i < entries.len() ==> expected.dom().contains((#[trigger] entries[i]).oid@)
                && expected[entries[i].oid@] == entries[i],
        forall|k: OidView| #[trigger]
            expected.dom().contains(k) ==> exists|i: int|
                0 <= i < entries.len() && (#[trigger] entries[i]).oid@ == k,
    ensures
        map_of(entries) == expected,
{
    assert forall|k: OidView| map_of(entries).dom().contains(k) <==> expected.dom().contains(
        k,
    ) by {
        lemma_map_of_dom(entries, k);
        if expected.dom().contains(k) {
            let i = choose|i: int| 0 <= i < entries.len() && (#[trigger] entries[i]).oid@ == k;
            assert(entries[i].oid@ == k);
        }
        if map_of(entries).dom().contains(k) {
            let i = choose|i: int| 0 <= i < entries.len() && (#[trigger] entries[i]).oid@ == k;
            assert(expected.dom().contains(entries[i].oid@));
        }
    }
    assert forall|k: OidView| map_of(entries).dom().contains(k) implies map_of(entries)[k]
        == expected[k] by {
        lemma_map_of_dom(entries, k);
        let i = choose|i: int| 0 <= i < entries.len() && (#[trigger] entries[i]).oid@ == k;
        lemma_map_of_index(entries, i);
    }
    assert(map_of(entries) =~= expected);
}

/// The identifier-to-extension map of a certificate.
///
/// No identifier occurs twice. An extension that is inserted under an
/// identifier that the map holds already takes the place of the earlier one.
/// The extensions are kept in the order of their identifiers, so that two
/// maps with the same extensions are equal in whatever order these were
/// inserted.
#[derive(Debug, PartialEq)]
pub struct ExtensionMap<'a> {
    entries: Vec<X509Extension<'a>>,
}

impl<'a> View for ExtensionMap<'a> {
    type V = Map<OidView, X509Extension<'a>>;

    closed spec fn view(&self) -> Map<OidView, X509Extension<'a>> {
        map_of(self.entries@)
    }
}

impl<'a> ExtensionMap<'a> {
    #[verifier::type_invariant]
    spec fn well_formed(&self) -> bool {
        sorted_by_oid(self.entries@)
    }

    /// The empty map.
    pub fn new() -> (map: ExtensionMap<'a>)
        ensures
            map@ == Map::<OidView, X509Extension<'a>>::empty(),
    {
        ExtensionMap { entries: Vec::new() }
    }

    /// The map of the extensions of `list`, taken in order: where several bear
    /// one identifier, the last of them is kept.
    pub fn from_extensions(list: Vec<X509Extension<'a>>) -> (map: ExtensionMap<'a>)
        ensures
            map@ == map_of(list@),
    {
        let mut map = ExtensionMap::new();
        let ghost whole = list@;
        for ext in iter: list
            invariant
                iter.seq() == whole,
                map@ == map_of(whole.take(iter.index() as int)),
        {
            proof {
                let i = iter.index() as int;
                assert(whole.take(i + 1).drop_last() =~= whole.take(i));
            }
            map.insert(ext);
        }
        assert(whole.take(whole.len() as int) =~= whole);
        map
    }

    /// The extensions of the map, each identifier once, in the order of the identifiers.
    pub fn as_slice(&self) -> (entries: &[X509Extension<'a>])
        ensures
            sorted_by_oid(entries@),
            distinct_oids(entries@),
            map_of(entries@) == self@,
    {
        proof {
            use_type_invariant(self);
            lemma_sorted_is_distinct(self.entries@);
        }
        self.entries.as_slice()
    }

    /// Looks for `oid` among the extensions by halving: `Ok` with the place of
    /// the extension that bears it, or `Err` with the place at which an
    /// extension with this identifier belongs.
    fn search(&self, oid: &Oid) -> (place: Result<usize, usize>)
        ensures
            place matches Ok(i) ==> i < self.entries@.len() && self.entries@[i as int].oid@
                == oid@,
            place matches Err(p) ==> {
                &&& p <= self.entries@.len()
                &&& forall|k: int| 0 <= k < p ==> oid_before((#[trigger] self.entries@[k]).oid@, oid@)
                &&& forall|k: int|
                    p <= k < self.entries@.len() ==> oid_before(
                        oid@,
                        (#[trigger] self.entries@[k]).oid@,
                    )
            },
    {
        proof {
            use_type_invariant(self);
        }
        let mut low: usize = 0;
        let mut high: usize = self.entries.len();
        while low < high
            invariant
                low <= high <= self.entries@.len(),
                sorted_by_oid(self.entries@),
                forall|k: int| 0 <= k < low ==> oid_before((#[trigger] self.entries@[k]).oid@, oid@),
                forall|k: int|
                    high <= k < self.entries@.len() ==> oid_before(
                        oid@,
                        (#[trigger] self.entries@[k]).oid@,
                    ),
            decreases high - low,
        {
            let mid: usize = low + (high - low) / 2;
            let here = &self.entries[mid].oid;
            if here.is_before(oid) {
                proof {
                    assert forall|k: int| 0 <= k < mid + 1 implies oid_before(
                        (#[trigger] self.entries@[k]).oid@,
                        oid@,
                    ) by {
                        if k < mid {
                            lemma_oid_order_transitive(
                                self.entries@[k].oid@,
                                self.entries@[mid as int].oid@,
                                oid@,
                            );
                        }
                    }
                }
                low = mid + 1;
            } else if *here == *oid {
                return Ok(mid);
            } else {
                proof {
                    lemma_oid_order_total(self.entries@[mid as int].oid@, oid@);
                    assert forall|k: int| mid <= k < self.entries@.len() implies oid_before(
                        oid@,
                        (#[trigger] self.entries@[k]).oid@,
                    ) by {
                        if k > mid {
                            lemma_oid_order_transitive(
                                oid@,
                                self.entries@[mid as int].oid@,
                                self.entries@[k].oid@,
                            );
                        }
                    }
                }
                high = mid;
            }
        }
        Err(low)
    }

    /// The extension with the identifier `oid`, if the map holds one.
    pub fn get(&self, oid: &Oid) -> (found: Option<&X509Extension<'a>>)
        ensures
            found is Some <==> self@.dom().contains(oid@),
            found matches Some(ext) ==> *ext == self@[oid@] && ext.oid@ == oid@,
    {
        proof {
            use_type_invariant(self);
            lemma_sorted_is_distinct(self.entries@);
            lemma_map_of_dom(self.entries@, oid@);
        }
        match self.search(oid) {
            Ok(i) => {
                proof {
                    lemma_map_of_index(self.entries@, i as int);
                }
                Some(&self.entries[i])
            },
            Err(_) => {
                proof {
                    assert forall|k: int| 0 <= k < self.entries@.len() implies (
                    #[trigger] self.entries@[k]).oid@ != oid@ by {
                        lemma_oid_order_total(self.entries@[k].oid@, oid@);
                    }
                }
                None
            },
        }
    }

    /// Whether the map holds an extension with the identifier `oid`.
    pub fn contains_key(&self, oid: &Oid) -> (held: bool)
        ensures
            held == self@.dom().contains(oid@),
    {
        self.get(oid).is_some()
    }

    /// Puts `ext` under its identifier, in place of the extension that the
    /// map held under that identifier, if any.
    pub fn insert(&mut self, ext: X509Extension<'a>)
        ensures
            final(self)@ == old(self)@.insert(ext.oid@, ext),
    {
        proof {
            use_type_invariant(&*self);
            lemma_sorted_is_distinct(self.entries@);
        }
        let ghost before = self.entries@;
        let ghost key = ext.oid@;
        let place = self.search(&ext.oid);
        let mut entries: Vec<X509Extension<'a>> = Vec::new();
        core::mem::swap(&mut self.entries, &mut entries);
        match place {
            Ok(i) => {
                proof {
                    let after = before.update(i as int, ext);
                    assert(sorted_by_oid(after)) by {
                        assert forall|a: int, b: int| 0 <= a < b < after.len() implies oid_before(
                            (#[trigger] after[a]).oid@,
                            (#[trigger] after[b]).oid@,
                        ) by {
                            assert(oid_before(before[a].oid@, before[b].oid@));
                        }
                    }
                    lemma_sorted_is_distinct(after);
                    lemma_replaced_entry(before, after, i as int, ext);
                }
                entries.set(i, ext);
            },
            Err(p) => {
                proof {
                    let after = before.insert(p as int, ext);
                    assert(sorted_by_oid(after)) by {
                        assert forall|a: int, b: int| 0 <= a < b < after.len() implies oid_before(
                            (#[trigger] after[a]).oid@,
                            (#[trigger] after[b]).oid@,
                        ) by {
                            if b < p {
                                assert(oid_before(before[a].oid@, before[b].oid@));
                            } else if b == p {
                                assert(oid_before(before[a].oid@, key));
                            } else if a < p {
                                assert(oid_before(before[a].oid@, before[b - 1].oid@));
                            } else if a == p {
                                assert(oid_before(key, before[b - 1].oid@));
                            } else {
                                assert(oid_before(before[a - 1].oid@, before[b - 1].oid@));
                            }
                        }
                    }
                    lemma_sorted_is_distinct(after);
                    lemma_added_entry(before, after, p as int, ext);
                }
                entries.insert(p, ext);
            },
        }
        self.entries = entries;
    }

    /// The number of extensions in the map.
    pub fn len(&self) -> (n: usize)
        ensures
            n == self@.dom().len(),
            self@.dom().finite(),
    {
        proof {
            use_type_invariant(self);
            lemma_sorted_is_distinct(self.entries@);
            lemma_map_of_len(self.entries@);
        }
        self.entries.len()
    }
}

/// A list in which one extension took the place of another with the same
/// identifier stands for the map with that extension put in.
proof fn lemma_replaced_entry<'a>(
    before: Seq<X509Extension<'a>>,
    after: Seq<X509Extension<'a>>,
    i: int,
    ext: X509Extension<'a>,
)
    requires
        distinct_oids(before),
        distinct_oids(after),
        0 <= i < before.len(),
        before[i].oid@ == ext.oid@,
        after == before.update(i, ext),
    ensures
        map_of(after) == map_of(before).insert(ext.oid@, ext),
{
    let expected = map_of(before).insert(ext.oid@, ext);
    assert forall|j: int| 0 <= j < after.len() implies expected.dom().contains(
        (#[trigger] after[j]).oid@,
    ) && expected[after[j].oid@] == after[j] by {
        if j != i {
            lemma_map_of_index(before, j);
            assert(before[j].oid@ != before[i].oid@);
        }
    }
    assert forall|k: OidView| #[trigger] expected.dom().contains(k) implies exists|j: int|
        0 <= j < after.len() && (#[trigger] after[j]).oid@ == k by {
        if k == ext.oid@ {
            assert(after[i].oid@ == k);
        } else {
            lemma_map_of_dom(before, k);
            let j = choose|j: int| 0 <= j < before.len() && (#[trigger] before[j]).oid@ == k;
            assert(after[j].oid@ == k);
        }
    }
    lemma_map_of_is(after, expected);
}

/// A list into which an extension with a new identifier was put stands for
/// the map with that extension put in.
proof fn lemma_added_entry<'a>(
    before: Seq<X509Extension<'a>>,
    after: Seq<X509Extension<'a>>,
    p: int,
    ext: X509Extension<'a>,
)
    requires
        distinct_oids(before),
        distinct_oids(after),
        0 <= p <= before.len(),
        after == before.insert(p, ext),
    ensures
        map_of(after) == map_of(before).insert(ext.oid@, ext),
{
    let expected = map_of(before).insert(ext.oid@, ext);
    assert forall|j: int| 0 <= j < after.len() implies expected.dom().contains(
        (#[trigger] after[j]).oid@,
    ) && expected[after[j].oid@] == after[j] by {
        if j < p {
            lemma_map_of_index(before, j);
            assert(after[j] == before[j]);
            assert(after[j].oid@ != after[p].oid@);
        } else if j > p {
            lemma_map_of_index(before, j - 1);
            assert(after[j] == before[j - 1]);
            assert(after[p].oid@ != after[j].oid@);
        }
    }
    assert forall|k: OidView| #[trigger] expected.dom().contains(k) implies exists|j: int|
        0 <= j < after.len() && (#[trigger] after[j]).oid@ == k by {
        if k == ext.oid@ {
            assert(after[p].oid@ == k);
        } else {
            lemma_map_of_dom(before, k);
            let j = choose|j: int| 0 <= j < before.len() && (#[trigger] before[j]).oid@ == k;
            if j < p {
                assert(after[j].oid@ == k);
            } else {
                assert(after[j + 1].oid@ == k);
            }
        }
    }
    lemma_map_of_is(after, expected);
}

/// Where no identifier occurs twice, the map has as many entries as the list.
pub proof fn lemma_map_of_len<'a>(entries: Seq<X509Extension<'a>>)
    requires
        distinct_oids(entries),
    ensures
        map_of(entries).dom().finite(),
        map_of(entries).dom().len() == entries.len(),
    decreases entries.len(),
{
    if entries.len() > 0 {
        let shorter = entries.drop_last();
        assert(distinct_oids(shorter)) by {
            assert forall|a: int, b: int| 0 <= a < b < shorter.len() implies (#[trigger] shorter[a]).oid@
                != (#[trigger] shorter[b]).oid@ by {
                assert(entries[a].oid@ != entries[b].oid@);
            }
        }
        lemma_map_of_len(shorter);
        lemma_map_of_dom(shorter, entries.last().oid@);
        if map_of(shorter).dom().contains(entries.last().oid@) {
            let i = choose|i: int|
                0 <= i < shorter.len() && (#[trigger] shorter[i]).oid@ == entries.last().oid@;
            assert(entries[i].oid@ != entries[entries.len() - 1].oid@);
        }
    }
}

} // verus!
