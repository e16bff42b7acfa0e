//! Record sets of a zone: finding the one that is published for a name and
//! type, and building the atomic change that replaces it.

use vstd::prelude::*;
use crate::address::ResolvedAddress;

verus! {

/// One record set of a zone, as the provider lists it and takes it.
#[derive(Debug, PartialEq, Eq)]
pub struct RecordSet {
    pub name: Option<String>,
    pub type_: Option<String>,
    pub ttl: Option<i32>,
    pub rrdatas: Option<Vec<String>>,
    pub kind: Option<String>,
    pub signature_rrdatas: Option<Vec<String>>,
}

/// The value of a record set.
pub ghost struct RecordSetView {
    pub name: Option<Seq<char>>,
    pub type_: Option<Seq<char>>,
    pub ttl: Option<i32>,
    pub rrdatas: Option<Seq<Seq<char>>>,
    pub kind: Option<Seq<char>>,
    pub signature_rrdatas: Option<Seq<Seq<char>>>,
}

/// The texts that a list of strings holds.
pub open spec fn texts(v: Seq<String>) -> Seq<Seq<char>> {
    Seq::new(v.len(), |i: int| v[i]@)
}

/// The text of an optional string.
pub open spec fn opt_text(o: Option<String>) -> Option<Seq<char>> {
    match o {
        Some(s) => Some(s@),
        None => None,
    }
}

/// The texts of an optional list of strings.
pub open spec fn opt_texts(o: Option<Vec<String>>) -> Option<Seq<Seq<char>>> {
    match o {
        Some(v) => Some(texts(v@)),
        None => None,
    }
}

impl View for RecordSet {
    type V = RecordSetView;

    open spec fn view(&self) -> RecordSetView {
        RecordSetView {
            name: opt_text(self.name),
            type_: opt_text(self.type_),
            ttl: self.ttl,
            rrdatas: opt_texts(self.rrdatas),
            kind: opt_text(self.kind),
            signature_rrdatas: opt_texts(self.signature_rrdatas),
        }
    }
}

/// The values of a list of record sets, in its order.
pub open spec fn views(v: Seq<RecordSet>) -> Seq<RecordSetView> {
    Seq::new(v.len(), |i: int| v[i]@)
}

/// The value of an optional record set.
pub open spec fn opt_view(o: Option<RecordSet>) -> Option<RecordSetView> {
    match o {
        Some(r) => Some(r@),
        None => None,
    }
}

/// The record sets of a listing response; a response without any is an
/// empty listing.
pub open spec fn listed(rrsets: Option<Vec<RecordSet>>) -> Seq<RecordSetView> {
    match rrsets {
        Some(v) => views(v@),
        None => Seq::empty(),
    }
}

/// Whether a record set carries exactly this name and this type.
pub open spec fn matches(r: RecordSetView, name: Seq<char>, type_: Seq<char>) -> bool {
    r.name == Some(name) && r.type_ == Some(type_)
}

/// The first record set of `listing` that matches the name and the type.
pub open spec fn first_match(listing: Seq<RecordSetView>, name: Seq<char>, type_: Seq<char>)
    -> Option<RecordSetView>
    decreases listing.len(),
{
    if listing.len() == 0 {
        None
    } else if matches(listing[0], name, type_) {
        Some(listing[0])
    } else {
        first_match(listing.drop_first(), name, type_)
    }
}

/// The marker that the provider puts on every record set.
pub open spec fn record_kind_text() -> Seq<char> {
    "dns#resourceRecordSet"@
}

/// The record set that publishes `address` under the name and type.
pub open spec fn fresh_record(name: Seq<char>, type_: Seq<char>, ttl: i32, address: Seq<char>)
    -> RecordSetView {
    RecordSetView {
        name: Some(name),
        type_: Some(type_),
        ttl: Some(ttl),
        rrdatas: Some(seq![address]),
        kind: Some(record_kind_text()),
        signature_rrdatas: Some(Seq::empty()),
    }
}

/// An atomic change to a zone: record sets to delete and to add, and the
/// caller's token by which the provider recognises a repeated submission.
#[derive(Debug, PartialEq, Eq)]
pub struct Change {
    pub additions: Option<Vec<RecordSet>>,
    pub deletions: Option<Vec<RecordSet>>,
    pub client_operation_id: Option<String>,
}

/// The value of a change.
pub ghost struct ChangeView {
    pub additions: Option<Seq<RecordSetView>>,
    pub deletions: Option<Seq<RecordSetView>>,
    pub client_operation_id: Option<Seq<char>>,
}

/// The values of an optional list of record sets.
pub open spec fn opt_views(o: Option<Vec<RecordSet>>) -> Option<Seq<RecordSetView>> {
    match o {
        Some(v) => Some(views(v@)),
        None => None,
    }
}

impl View for Change {
    type V = ChangeView;

    open spec fn view(&self) -> ChangeView {
        ChangeView {
            additions: opt_views(self.additions),
            deletions: opt_views(self.deletions),
            client_operation_id: opt_text(self.client_operation_id),
        }
    }
}

/// The change that replaces `existing`, if there is one, by a fresh record
/// set for `address`: whole records, never a part of one.
pub open spec fn change_for(
    existing: Option<RecordSetView>,
    name: Seq<char>,
    type_: Seq<char>,
    ttl: i32,
    address: Seq<char>,
) -> ChangeView {
    ChangeView {
        additions: Some(seq![fresh_record(name, type_, ttl, address)]),
        deletions: match existing {
            Some(r) => Some(seq![r]),
            None => None,
        },
        client_operation_id: None,
    }
}

/// The change that a listing calls for: `change_for` the first match.
pub open spec fn change_for_listing(
    listing: Seq<RecordSetView>,
    name: Seq<char>,
    type_: Seq<char>,
    ttl: i32,
    address: Seq<char>,
) -> ChangeView {
    change_for(first_match(listing, name, type_), name, type_, ttl, address)
}

pub(crate) fn clone_text(s: &Option<String>) -> (r: Option<String>)
    ensures
        opt_text(r) == opt_text(*s),
{
    match s {
        Some(t) => Some(t.clone()),
        None => None,
    }
}

fn clone_texts(list: &Option<Vec<String>>) -> (r: Option<Vec<String>>)
    ensures
        opt_texts(r) == opt_texts(*list),
{
    match list {
        Some(v) => {
            let mut out: Vec<String> = Vec::new();
            let mut i: usize = 0;
            while i < v.len()
                invariant
                    i <= v.len(),
                    out.len() == i,
                    forall|k: int| 0 <= k < i ==> out[k]@ == v[k]@,
                decreases v.len() - i,
            {
                out.push(v[i].clone());
                i += 1;
            }
            assert(texts(out@) =~= texts(v@));
            Some(out)
        },
        None => None,
    }
}

impl Clone for RecordSet {
    fn clone(&self) -> (r: RecordSet)
        ensures
            r@ == self@,
    {
        RecordSet {
            name: clone_text(&self.name),
            type_: clone_text(&self.type_),
            ttl: self.ttl,
            rrdatas: clone_texts(&self.rrdatas),
            kind: clone_text(&self.kind),
            signature_rrdatas: clone_texts(&self.signature_rrdatas),
        }
    }
}

impl RecordSet {
    /// Tells whether this record set carries exactly this name and type.
    pub fn is_for(&self, name: &str, type_: &str) -> (r: bool)
        ensures
            r == matches(self@, name@, type_@),
    {
        match (&self.name, &self.type_) {
            (Some(rrname), Some(rrtype)) => {
                let wanted_name = String::from_str(name);
                let wanted_type = String::from_str(type_);
                *rrname == wanted_name && *rrtype == wanted_type
            },
            _ => false,
        }
    }
}

/// Skipping a prefix without a match does not change the first match.
proof fn lemma_first_match_skip(
    listing: Seq<RecordSetView>,
    name: Seq<char>,
    type_: Seq<char>,
    i: int,
)
    requires
        0 <= i <= listing.len(),
        forall|k: int| 0 <= k < i ==> !matches(#[trigger] listing[k], name, type_),
    ensures
        first_match(listing, name, type_) == first_match(
            listing.subrange(i, listing.len() as int),
            name,
            type_,
        ),
    decreases i,
{
    if i == 0 {
        assert(listing.subrange(0, listing.len() as int) =~= listing);
    } else {
        let rest = listing.drop_first();
        assert(!matches(listing[0], name, type_));
        assert forall|k: int| 0 <= k < i - 1 implies !matches(#[trigger] rest[k], name, type_) by {
            assert(rest[k] == listing[k + 1]);
        }
        lemma_first_match_skip(rest, name, type_, i - 1);
        assert(rest.subrange(i - 1, rest.len() as int) =~= listing.subrange(
            i,
            listing.len() as int,
        ));
    }
}

/// Finds the position of the first record set in `listing` with exactly
/// this name and type.
pub fn find_existing(listing: &Vec<RecordSet>, name: &str, type_: &str) -> (r: Option<usize>)
    ensures
        match r {
            Some(i) => i < listing.len() && matches(listing[i as int]@, name@, type_@)
                && first_match(views(listing@), name@, type_@) == Some(listing[i as int]@),
            None => first_match(views(listing@), name@, type_@).is_none(),
        },
        forall|k: int|
            0 <= k < listing.len() && (r matches Some(i) ==> k < i) ==> !matches(
                #[trigger] listing[k]@,
                name@,
                type_@,
            ),
{
    let ghost all = views(listing@);
    let mut i: usize = 0;
    while i < listing.len()
        invariant
            i <= listing.len(),
            all == views(listing@),
            forall|k: int| 0 <= k < i ==> !matches(#[trigger] all[k], name@, type_@),
        decreases listing.len() - i,
    {
        if listing[i].is_for(name, type_) {
            proof {
                lemma_first_match_skip(all, name@, type_@, i as int);
                assert(all.subrange(i as int, all.len() as int)[0] == all[i as int]);
                assert forall|k: int| 0 <= k < i implies !matches(
                    #[trigger] listing[k]@,
                    name@,
                    type_@,
                ) by {
                    assert(all[k] == listing[k]@);
                }
            }
            return Some(i);
        }
        assert(all[i as int] == listing[i as int]@);
        i += 1;
    }
    proof {
        lemma_first_match_skip(all, name@, type_@, i as int);
        assert(all.subrange(i as int, all.len() as int).len() == 0);
        assert forall|k: int| 0 <= k < listing.len() implies !matches(
            #[trigger] listing[k]@,
            name@,
            type_@,
        ) by {
            assert(all[k] == listing[k]@);
        }
    }
    None
}

/// Picks from a listing response the record set that is published for the
/// name and type: a copy of the first that matches both.
pub fn reconcile(rrsets: &Option<Vec<RecordSet>>, name: &str, type_: &str) -> (r: Option<
    RecordSet,
>)
    ensures
        opt_view(r) == first_match(listed(*rrsets), name@, type_@),
{
    match rrsets {
        Some(listing) => match find_existing(listing, name, type_) {
            Some(i) => Some(listing[i].clone()),
            None => None,
        },
        None => None,
    }
}

/// Builds the change that deletes `existing`, if there is one, and adds
/// one record set that publishes `address`.
pub fn build_change(
    existing: Option<RecordSet>,
    name: &str,
    type_: &str,
    ttl: i32,
    address: &ResolvedAddress,
) -> (change: Change)
    ensures
        change@ == change_for(opt_view(existing), name@, type_@, ttl, address@),
{
    let mut data: Vec<String> = Vec::new();
    data.push(address.to_text());
    let record = RecordSet {
        name: Some(String::from_str(name)),
        type_: Some(String::from_str(type_)),
        ttl: Some(ttl),
        rrdatas: Some(data),
        kind: Some(String::from_str("dns#resourceRecordSet")),
        signature_rrdatas: Some(Vec::new()),
    };
    proof {
        assert(texts(data@) =~= seq![address@]);
        assert(texts(Seq::<String>::empty()) =~= Seq::<Seq<char>>::empty());
        assert(record@ == fresh_record(name@, type_@, ttl, address@));
    }
    let mut additions: Vec<RecordSet> = Vec::new();
    additions.push(record);
    assert(views(additions@) =~= seq![fresh_record(name@, type_@, ttl, address@)]);
    let deletions: Option<Vec<RecordSet>> = match existing {
        Some(old_record) => {
            let mut gone: Vec<RecordSet> = Vec::new();
            gone.push(old_record);
            assert(views(gone@) =~= seq![old_record@]);
            Some(gone)
        },
        None => None,
    };
    Change { additions: Some(additions), deletions, client_operation_id: None }
}

/// Attaches the caller's token, if there is one, to a change that is about
/// to be submitted.
pub fn with_operation_id(change: Change, id: Option<String>) -> (r: Change)
    ensures
        r@ == (ChangeView { client_operation_id: opt_text(id), ..change@ }),
{
    Change { additions: change.additions, deletions: change.deletions, client_operation_id: id }
}

/// The first match is the record set at `i` where that one matches and
/// none before it does, whatever follows it.
pub proof fn lemma_first_match_wins(
    listing: Seq<RecordSetView>,
    name: Seq<char>,
    type_: Seq<char>,
    i: int,
)
    requires
        0 <= i < listing.len(),
        matches(listing[i], name, type_),
        forall|k: int| 0 <= k < i ==> !matches(#[trigger] listing[k], name, type_),
    ensures
        first_match(listing, name, type_) == Some(listing[i]),
{
    lemma_first_match_skip(listing, name, type_, i);
    assert(listing.subrange(i, listing.len() as int)[0] == listing[i]);
}

/// What is selected stands in the listing and carries both the name and
/// the type: a record set that differs in either is never selected. Where
/// nothing is selected, nothing in the listing carries both.
pub proof fn lemma_selection_is_exact(
    listing: Seq<RecordSetView>,
    name: Seq<char>,
    type_: Seq<char>,
)
    ensures
        match first_match(listing, name, type_) {
            Some(r) => r.name == Some(name) && r.type_ == Some(type_) && exists|i: int|
                0 <= i < listing.len() && #[trigger] listing[i] == r,
            None => forall|k: int|
                0 <= k < listing.len() ==> !matches(#[trigger] listing[k], name, type_),
        },
    decreases listing.len(),
{
    if listing.len() > 0 {
        if matches(listing[0], name, type_) {
            assert(listing[0] == listing[0]);
        } else {
            let rest = listing.drop_first();
            lemma_selection_is_exact(rest, name, type_);
            match first_match(rest, name, type_) {
                Some(r) => {
                    let i = choose|i: int| 0 <= i < rest.len() && #[trigger] rest[i] == r;
                    assert(listing[i + 1] == r);
                },
                None => {
                    assert forall|k: int| 0 <= k < listing.len() implies !matches(
                        #[trigger] listing[k],
                        name,
                        type_,
                    ) by {
                        if k > 0 {
                            assert(rest[k - 1] == listing[k]);
                        }
                    }
                },
            }
        }
    }
}

/// For a listing in which nothing matches, the change deletes nothing and
/// adds exactly the one fresh record set.
pub proof fn lemma_no_match_only_adds(
    listing: Seq<RecordSetView>,
    name: Seq<char>,
    type_: Seq<char>,
    ttl: i32,
    address: Seq<char>,
)
    requires
        forall|k: int| 0 <= k < listing.len() ==> !matches(#[trigger] listing[k], name, type_),
    ensures
        first_match(listing, name, type_) is None,
        change_for_listing(listing, name, type_, ttl, address).deletions is None,
        change_for_listing(listing, name, type_, ttl, address).additions == Some(
            seq![fresh_record(name, type_, ttl, address)],
        ),
{
    lemma_first_match_skip(listing, name, type_, listing.len() as int);
    assert(listing.subrange(listing.len() as int, listing.len() as int).len() == 0);
}

/// For a listing with exactly one match, the change deletes exactly that
/// record set, as it was listed, and adds exactly one record set with the
/// configured name, type and time to live and the new address as its only
/// datum.
pub proof fn lemma_single_match_is_replaced(
    listing: Seq<RecordSetView>,
    i: int,
    name: Seq<char>,
    type_: Seq<char>,
    ttl: i32,
    address: Seq<char>,
)
    requires
        0 <= i < listing.len(),
        matches(listing[i], name, type_),
        forall|k: int|
            0 <= k < listing.len() && k != i ==> !matches(#[trigger] listing[k], name, type_),
    ensures
        ({
            let change = change_for_listing(listing, name, type_, ttl, address);
            &&& change.deletions == Some(seq![listing[i]])
            &&& change.additions is Some
            &&& change.additions.unwrap().len() == 1
            &&& change.additions.unwrap()[0].name == Some(name)
            &&& change.additions.unwrap()[0].type_ == Some(type_)
            &&& change.additions.unwrap()[0].ttl == Some(ttl)
            &&& change.additions.unwrap()[0].rrdatas == Some(seq![address])
        }),
{
    lemma_first_match_wins(listing, name, type_, i);
}

} // verus!
