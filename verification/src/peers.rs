//! The peer list: the contacts, merged with the nodes seen on the LAN just now, and the lines
//! of its table.

use crate::discovery::Endpoint;
use crate::identity::Contact;
use crate::ids::{peer_text, PeerId};
use crate::text::{owned, push_chars, push_str, string_of, chars_of};
use crate::trust::TrustState;
use vstd::prelude::*;

verus! {

/// The text of `o`, if any.
pub open spec fn opt_text(o: Option<String>) -> Option<Seq<char>> {
    match o {
        Some(s) => Some(s@),
        None => None,
    }
}

/// The pairs of `v` with their locators as text.
pub open spec fn pairs_text(v: Seq<(PeerId, String)>) -> Seq<(PeerId, Seq<char>)> {
    v.map_values(|x: (PeerId, String)| (x.0, x.1@))
}

/// The strings of `v` as text.
pub open spec fn strings_text(v: Seq<String>) -> Seq<Seq<char>> {
    v.map_values(|s: String| s@)
}

/// Position of the first entry for `p`.
pub open spec fn live_pos(live: Seq<(PeerId, Seq<char>)>, p: PeerId) -> Option<int>
    decreases live.len(),
{
    if live.len() == 0 {
        None
    } else {
        match live_pos(live.drop_last(), p) {
            Some(j) => Some(j),
            None => if live.last().0 == p {
                Some(live.len() - 1)
            } else {
                None
            },
        }
    }
}

/// The identified nodes seen on the LAN, this node excepted: each once, in the order of its
/// first beacon, under the locator of its last one.
pub open spec fn live_of(self_id: Option<PeerId>, b: Seq<Endpoint>) -> Seq<(PeerId, Seq<char>)>
    decreases b.len(),
{
    if b.len() == 0 {
        Seq::empty()
    } else {
        let acc = live_of(self_id, b.drop_last());
        let e = b.last();
        match e.peer {
            Some(p) => if e.peer == self_id {
                acc
            } else {
                match live_pos(acc, p) {
                    Some(j) => acc.update(j, (p, e.locator@)),
                    None => acc.push((p, e.locator@)),
                }
            },
            None => acc,
        }
    }
}

/// The locators of the beacons that carry no node identifier, in order; none when this node
/// has no identifier of its own, since its beacons cannot then be told from them.
pub open spec fn unmatched_of(self_id: Option<PeerId>, b: Seq<Endpoint>) -> Seq<Seq<char>>
    decreases b.len(),
{
    if b.len() == 0 {
        Seq::empty()
    } else {
        let acc = unmatched_of(self_id, b.drop_last());
        if b.last().peer is None && self_id is Some {
            acc.push(b.last().locator@)
        } else {
            acc
        }
    }
}

proof fn lemma_live_pos(live: Seq<(PeerId, Seq<char>)>, p: PeerId)
    ensures
        match live_pos(live, p) {
            Some(i) => 0 <= i < live.len() && live[i].0 == p && forall|q: int|
                0 <= q < i ==> (#[trigger] live[q]).0 != p,
            None => forall|q: int| 0 <= q < live.len() ==> (#[trigger] live[q]).0 != p,
        },
    decreases live.len(),
{
    if live.len() > 0 {
        lemma_live_pos(live.drop_last(), p);
        assert forall|q: int| 0 <= q < live.len() - 1 implies live[q] == live.drop_last()[q] by {}
    }
}

/// Splits a LAN scan into the identified nodes other than this one (see `live_of`) and the
/// locators of the beacons without an identifier (see `unmatched_of`).
pub fn lan_split(self_id: Option<PeerId>, beacons: &[Endpoint]) -> (r: (Vec<(PeerId, String)>, Vec<String>))
    ensures
        pairs_text(r.0@) == live_of(self_id, beacons@),
        strings_text(r.1@) == unmatched_of(self_id, beacons@),
{
    let mut live: Vec<(PeerId, String)> = Vec::new();
    let mut unmatched: Vec<String> = Vec::new();
    let mut i: usize = 0;
    while i < beacons.len()
        invariant
            i <= beacons@.len(),
            pairs_text(live@) == live_of(self_id, beacons@.take(i as int)),
            strings_text(unmatched@) == unmatched_of(self_id, beacons@.take(i as int)),
        decreases beacons@.len() - i,
    {
        let ghost t = beacons@.take(i + 1);
        assert(t.drop_last() =~= beacons@.take(i as int));
        assert(t.last() == beacons@[i as int]);
        let e = &beacons[i];
        let mine = match (e.peer, self_id) {
            (Some(a), Some(b)) => a.same(&b),
            (None, None) => true,
            _ => false,
        };
        if !mine {
            match e.peer {
                Some(p) => {
                    let ghost acc = pairs_text(live@);
                    proof {
                        lemma_live_pos(acc, p);
                    }
                    let mut j: usize = 0;
                    let mut found = false;
                    while !found && j < live.len()
                        invariant
                            j <= live@.len(),
                            acc == pairs_text(live@),
                            forall|q: int| 0 <= q < j ==> (#[trigger] acc[q]).0 != p,
                            found ==> j < live@.len() && acc[j as int].0 == p,
                        decreases live@.len() - j + (if found { 0int } else { 1int }),
                    {
                        assert(acc[j as int] == (live@[j as int].0, live@[j as int].1@));
                        if live[j].0.same(&p) {
                            found = true;
                        } else {
                            j += 1;
                        }
                    }
                    let loc = owned(e.locator.as_str());
                    if found {
                        assert(live_pos(acc, p) == Some(j as int));
                        live.set(j, (p, loc));
                        assert(pairs_text(live@) =~= acc.update(j as int, (p, e.locator@)));
                    } else {
                        assert(live_pos(acc, p) is None);
                        live.push((p, loc));
                        assert(pairs_text(live@) =~= acc.push((p, e.locator@)));
                    }
                },
                None => {
                    let ghost before = strings_text(unmatched@);
                    unmatched.push(owned(e.locator.as_str()));
                    assert(strings_text(unmatched@) =~= before.push(e.locator@));
                },
            }
        }
        i += 1;
    }
    assert(beacons@.take(beacons@.len() as int) =~= beacons@);
    (live, unmatched)
}

/// One line of the peer list: a contact, or a node seen on the LAN.
#[derive(Debug, Clone)]
pub struct PeerRow {
    pub id: Option<PeerId>,
    pub trust: TrustState,
    pub name: Option<String>,
    pub locator: Option<String>,
    /// Seen on the LAN just now.
    pub live: bool,
}

/// A peer-list line as values: identifier, trust, name, reachable address, seen just now.
pub type RowModel = (Option<PeerId>, TrustState, Option<Seq<char>>, Option<Seq<char>>, bool);

pub open spec fn row_model(r: PeerRow) -> RowModel {
    (r.id, r.trust, opt_text(r.name), opt_text(r.locator), r.live)
}

/// A contact's line: reachable at its LAN locator when it was seen just now, else at the one
/// remembered for it.
pub open spec fn contact_row(
    c: (PeerId, Contact),
    remembered: Option<Seq<char>>,
    live: Seq<(PeerId, Seq<char>)>,
) -> RowModel {
    let at = live_pos(live, c.0);
    (
        Some(c.0),
        c.1.trust,
        opt_text(c.1.card.name),
        match at {
            Some(j) => Some(live[j].1),
            None => remembered,
        },
        at is Some,
    )
}

/// `p` is one of the contacts.
pub open spec fn is_contact(contacts: Seq<(PeerId, Contact)>, p: PeerId) -> bool {
    exists|k: int| 0 <= k < contacts.len() && (#[trigger] contacts[k]).0 == p
}

/// The nodes seen on the LAN that are not contacts, in order.
pub open spec fn strangers(live: Seq<(PeerId, Seq<char>)>, contacts: Seq<(PeerId, Contact)>) -> Seq<
    (PeerId, Seq<char>),
>
    decreases live.len(),
{
    if live.len() == 0 {
        Seq::empty()
    } else {
        let s = strangers(live.drop_last(), contacts);
        if is_contact(contacts, live.last().0) {
            s
        } else {
            s.push(live.last())
        }
    }
}

/// The peer list: a line for each contact, in order; then one, as `Observed`, for each other
/// node seen on the LAN; then one for each beacon without an identifier.
pub open spec fn peer_rows_spec(
    contacts: Seq<(PeerId, Contact)>,
    remembered: Seq<Option<Seq<char>>>,
    live: Seq<(PeerId, Seq<char>)>,
    unmatched: Seq<Seq<char>>,
) -> Seq<RowModel> {
    let s = strangers(live, contacts);
    Seq::new(contacts.len(), |k: int| contact_row(contacts[k], remembered[k], live)) + Seq::new(
        s.len(),
        |k: int| (Some(s[k].0), TrustState::Observed, None::<Seq<char>>, Some(s[k].1), true),
    ) + Seq::new(
        unmatched.len(),
        |k: int| (None::<PeerId>, TrustState::Observed, None::<Seq<char>>, Some(unmatched[k]), true),
    )
}

fn copy_opt(o: &Option<String>) -> (r: Option<String>)
    ensures
        opt_text(r) == opt_text(*o),
{
    match o {
        Some(s) => Some(owned(s.as_str())),
        None => None,
    }
}

/// The first position of `p` among the live nodes.
fn find_live(live: &[(PeerId, String)], p: &PeerId) -> (r: Option<usize>)
    ensures
        r matches Some(j) ==> j < live@.len() && live_pos(pairs_text(live@), *p) == Some(j as int),
        r is None ==> live_pos(pairs_text(live@), *p) is None,
{
    let ghost acc = pairs_text(live@);
    proof {
        lemma_live_pos(acc, *p);
    }
    let mut j: usize = 0;
    while j < live.len()
        invariant
            j <= live@.len(),
            acc == pairs_text(live@),
            forall|q: int| 0 <= q < j ==> (#[trigger] acc[q]).0 != *p,
        decreases live@.len() - j,
    {
        assert(acc[j as int] == (live@[j as int].0, live@[j as int].1@));
        if live[j].0.same(p) {
            assert(acc[j as int].0 == *p);
            proof {
                lemma_live_pos(acc, *p);
            }
            return Some(j);
        }
        j += 1;
    }
    None
}

/// Whether `p` is one of the contacts.
fn find_contact(contacts: &[(PeerId, Contact)], p: &PeerId) -> (b: bool)
    ensures
        b == is_contact(contacts@, *p),
{
    let mut k: usize = 0;
    while k < contacts.len()
        invariant
            k <= contacts@.len(),
            forall|q: int| 0 <= q < k ==> (#[trigger] contacts@[q]).0 != *p,
        decreases contacts@.len() - k,
    {
        if contacts[k].0.same(p) {
            assert(contacts@[k as int].0 == *p);
            return true;
        }
        k += 1;
    }
    false
}

/// Builds the peer list (see `peer_rows_spec`) from the contacts, the locator remembered for
/// each, the identified nodes seen on the LAN and the locators of the other beacons.
pub fn peer_rows(
    contacts: &[(PeerId, Contact)],
    remembered: &[Option<String>],
    live: &[(PeerId, String)],
    unmatched: &[String],
) -> (rows: Vec<PeerRow>)
    requires
        remembered@.len() == contacts@.len(),
    ensures
        rows@.map_values(|r: PeerRow| row_model(r)) == peer_rows_spec(
            contacts@,
            remembered@.map_values(|o: Option<String>| opt_text(o)),
            pairs_text(live@),
            strings_text(unmatched@),
        ),
{
    let ghost lv = pairs_text(live@);
    let ghost rem = remembered@.map_values(|o: Option<String>| opt_text(o));
    let ghost st = strangers(lv, contacts@);
    let ghost um = strings_text(unmatched@);
    let ghost part1 = Seq::new(contacts@.len(), |k: int| contact_row(contacts@[k], rem[k], lv));
    let ghost part2 = Seq::new(
        st.len(),
        |k: int| (Some(st[k].0), TrustState::Observed, None::<Seq<char>>, Some(st[k].1), true),
    );
    let ghost part3 = Seq::new(
        um.len(),
        |k: int| (None::<PeerId>, TrustState::Observed, None::<Seq<char>>, Some(um[k]), true),
    );
    let mut rows: Vec<PeerRow> = Vec::new();
    let mut k: usize = 0;
    while k < contacts.len()
        invariant
            k <= contacts@.len(),
            remembered@.len() == contacts@.len(),
            lv == pairs_text(live@),
            rem == remembered@.map_values(|o: Option<String>| opt_text(o)),
            part1 == Seq::new(contacts@.len(), |k: int| contact_row(contacts@[k], rem[k], lv)),
            rows@.map_values(|r: PeerRow| row_model(r)) == part1.take(k as int),
        decreases contacts@.len() - k,
    {
        let id = contacts[k].0;
        let at = find_live(live, &id);
        let locator = match at {
            Some(j) => Some(owned(live[j].1.as_str())),
            None => copy_opt(&remembered[k]),
        };
        let row = PeerRow {
            id: Some(id),
            trust: contacts[k].1.trust,
            name: copy_opt(&contacts[k].1.card.name),
            locator,
            live: at.is_some(),
        };
        let ghost before = rows@.map_values(|r: PeerRow| row_model(r));
        rows.push(row);
        proof {
            if let Some(j) = at {
                assert(lv[j as int] == (live@[j as int].0, live@[j as int].1@));
            }
            assert(rem[k as int] == opt_text(remembered@[k as int]));
            assert(row_model(row) == part1[k as int]);
            assert(rows@.map_values(|r: PeerRow| row_model(r)) =~= before.push(row_model(row)));
            assert(part1.take(k + 1) =~= part1.take(k as int).push(part1[k as int]));
        }
        k += 1;
    }
    assert(part1.take(contacts@.len() as int) =~= part1);
    let mut m: usize = 0;
    while m < live.len()
        invariant
            m <= live@.len(),
            lv == pairs_text(live@),
            rows@.map_values(|r: PeerRow| row_model(r)) == part1 + Seq::new(
                strangers(lv.take(m as int), contacts@).len(),
                |k: int|
                    (
                        Some(strangers(lv.take(m as int), contacts@)[k].0),
                        TrustState::Observed,
                        None::<Seq<char>>,
                        Some(strangers(lv.take(m as int), contacts@)[k].1),
                        true,
                    ),
            ),
        decreases live@.len() - m,
    {
        let ghost t = lv.take(m + 1);
        assert(t.drop_last() =~= lv.take(m as int));
        assert(t.last() == (live@[m as int].0, live@[m as int].1@));
        let ghost before = rows@.map_values(|r: PeerRow| row_model(r));
        let id = live[m].0;
        if !find_contact(contacts, &id) {
            let row = PeerRow {
                id: Some(id),
                trust: TrustState::Observed,
                name: None,
                locator: Some(owned(live[m].1.as_str())),
                live: true,
            };
            rows.push(row);
            proof {
                assert(rows@.map_values(|r: PeerRow| row_model(r)) =~= before.push(row_model(row)));
            }
        }
        proof {
            let s0 = strangers(lv.take(m as int), contacts@);
            let s1 = strangers(t, contacts@);
            assert(rows@.map_values(|r: PeerRow| row_model(r)) =~= part1 + Seq::new(
                s1.len(),
                |k: int| (Some(s1[k].0), TrustState::Observed, None::<Seq<char>>, Some(s1[k].1), true),
            ));
        }
        m += 1;
    }
    assert(lv.take(live@.len() as int) =~= lv);
    let mut u: usize = 0;
    while u < unmatched.len()
        invariant
            u <= unmatched@.len(),
            um == strings_text(unmatched@),
            rows@.map_values(|r: PeerRow| row_model(r)) == part1 + part2 + part3.take(u as int),
            part3 == Seq::new(
                um.len(),
                |k: int| (None::<PeerId>, TrustState::Observed, None::<Seq<char>>, Some(um[k]), true),
            ),
        decreases unmatched@.len() - u,
    {
        let ghost before = rows@.map_values(|r: PeerRow| row_model(r));
        let row = PeerRow {
            id: None,
            trust: TrustState::Observed,
            name: None,
            locator: Some(owned(unmatched[u].as_str())),
            live: true,
        };
        rows.push(row);
        proof {
            assert(rows@.map_values(|r: PeerRow| row_model(r)) =~= before.push(row_model(row)));
            assert(part3.take(u + 1) =~= part3.take(u as int).push(part3[u as int]));
        }
        u += 1;
    }
    assert(part3.take(unmatched@.len() as int) =~= part3);
    rows
}

/// Discovery grants no trust: every line of the peer list that is not a contact's is
/// `Observed`, and a line shows `Known` or `Verified` only for a contact with that trust.
pub proof fn lemma_discovery_grants_no_trust(
    contacts: Seq<(PeerId, Contact)>,
    remembered: Seq<Option<Seq<char>>>,
    live: Seq<(PeerId, Seq<char>)>,
    unmatched: Seq<Seq<char>>,
)
    ensures
        forall|k: int|
            contacts.len() <= k < peer_rows_spec(contacts, remembered, live, unmatched).len()
                ==> (#[trigger] peer_rows_spec(contacts, remembered, live, unmatched)[k]).1
                == TrustState::Observed,
        forall|k: int|
            0 <= k < peer_rows_spec(contacts, remembered, live, unmatched).len() && (
            #[trigger] peer_rows_spec(contacts, remembered, live, unmatched)[k].1 == TrustState::Known
                || peer_rows_spec(contacts, remembered, live, unmatched)[k].1 == TrustState::Verified)
                ==> k < contacts.len() && contacts[k].1.trust == peer_rows_spec(
                contacts,
                remembered,
                live,
                unmatched,
            )[k].1,
{
}

/// `s` followed by spaces up to `w` characters; `s` itself when it is that long already.
pub open spec fn pad_to(s: Seq<char>, w: nat) -> Seq<char> {
    if s.len() >= w {
        s
    } else {
        s + Seq::new((w - s.len()) as nat, |i: int| ' ')
    }
}

/// The name a trust level is shown under.
pub open spec fn trust_name(t: TrustState) -> Seq<char> {
    match t {
        TrustState::Unknown => "Unknown"@,
        TrustState::Observed => "Observed"@,
        TrustState::Known => "Known"@,
        TrustState::Verified => "Verified"@,
        TrustState::Blocked => "Blocked"@,
    }
}

/// The table line of a peer: its name (`(lan)` without one), trust, reachable address (a dash
/// without one) and identifier (nothing without one), in columns of 14, 10 and 22 characters.
pub open spec fn peer_line_text(r: RowModel) -> Seq<char> {
    pad_to(
        match r.2 {
            Some(n) => n,
            None => "(lan)"@,
        },
        14,
    ) + " "@ + pad_to(trust_name(r.1), 10) + " "@ + pad_to(
        match r.3 {
            Some(l) => l,
            None => "\u{2014}"@,
        },
        22,
    ) + " "@ + match r.0 {
        Some(p) => peer_text(p.0@),
        None => Seq::<char>::empty(),
    }
}

/// The header line of the peer table.
pub open spec fn peer_header_text() -> Seq<char> {
    pad_to("NAME"@, 14) + " "@ + pad_to("TRUST"@, 10) + " "@ + pad_to("REACHABLE"@, 22) + " ID"@
}

/// The name a trust level is shown under.
pub fn trust_label(t: TrustState) -> (s: &'static str)
    ensures
        s@ == trust_name(t),
{
    match t {
        TrustState::Unknown => "Unknown",
        TrustState::Observed => "Observed",
        TrustState::Known => "Known",
        TrustState::Verified => "Verified",
        TrustState::Blocked => "Blocked",
    }
}

fn push_padded(v: &mut Vec<char>, s: &[char], w: usize)
    ensures
        final(v)@ == old(v)@ + pad_to(s@, w as nat),
{
    let ghost start = v@;
    push_chars(v, s);
    let mut n: usize = s.len();
    while n < w
        invariant
            s@.len() <= n <= (if w > s@.len() { w as nat } else { s@.len() }),
            v@ == start + s@ + Seq::new((n - s@.len()) as nat, |i: int| ' '),
        decreases w - n,
    {
        let ghost before = v@;
        v.push(' ');
        assert(v@ =~= start + s@ + Seq::new((n + 1 - s@.len()) as nat, |i: int| ' ')) by {
            assert(Seq::new((n + 1 - s@.len()) as nat, |i: int| ' ') =~= Seq::new(
                (n - s@.len()) as nat,
                |i: int| ' ',
            ).push(' '));
        }
        n += 1;
    }
    if s.len() >= w {
        assert(v@ =~= start + s@);
    } else {
        assert(v@ =~= start + pad_to(s@, w as nat));
    }
}

/// The table line of a peer (see `peer_line_text`).
pub fn peer_line(row: &PeerRow) -> (s: String)
    ensures
        s@ == peer_line_text(row_model(*row)),
{
    let mut v: Vec<char> = Vec::new();
    let name = match &row.name {
        Some(n) => chars_of(n.as_str()),
        None => chars_of("(lan)"),
    };
    push_padded(&mut v, &name, 14);
    push_str(&mut v, " ");
    let trust = chars_of(trust_label(row.trust));
    push_padded(&mut v, &trust, 10);
    push_str(&mut v, " ");
    let loc = match &row.locator {
        Some(l) => chars_of(l.as_str()),
        None => chars_of("\u{2014}"),
    };
    push_padded(&mut v, &loc, 22);
    push_str(&mut v, " ");
    match &row.id {
        Some(p) => {
            let t = p.to_string();
            let tc = chars_of(t.as_str());
            push_chars(&mut v, &tc);
        },
        None => {},
    }
    string_of(&v)
}

/// The header line of the peer table.
pub fn peer_header() -> (s: String)
    ensures
        s@ == peer_header_text(),
{
    let mut v: Vec<char> = Vec::new();
    push_padded(&mut v, &chars_of("NAME"), 14);
    push_str(&mut v, " ");
    push_padded(&mut v, &chars_of("TRUST"), 10);
    push_str(&mut v, " ");
    push_padded(&mut v, &chars_of("REACHABLE"), 22);
    push_str(&mut v, " ID");
    string_of(&v)
}

} // verus!
