//! The sensor manager: the arena that owns every registered sensor, assigns
//! identifiers at first registration, and keeps two derived indices — one
//! from identifier to storage slot, one from module key (name, hardware id)
//! to the ordered identifiers that module's sensors were assigned. Both
//! indices stay consistent with the authoritative sensor list: every indexed
//! identifier resolves to a live sensor.
use vstd::prelude::*;

use crate::attr::{attr_lookup, attr_upsert, SensorAttr};
use crate::module::SensorModule;
use crate::sensor::Sensor;
use crate::suid::{spec_suid_of, Suid};
use crate::suid::{generate_fixed, SuidGenerator};

verus! {

/// The decimal digit character for `d`.
pub open spec fn spec_digit_char(d: nat) -> char {
    if d == 0 {
        '0'
    } else if d == 1 {
        '1'
    } else if d == 2 {
        '2'
    } else if d == 3 {
        '3'
    } else if d == 4 {
        '4'
    } else if d == 5 {
        '5'
    } else if d == 6 {
        '6'
    } else if d == 7 {
        '7'
    } else if d == 8 {
        '8'
    } else {
        '9'
    }
}

/// The decimal digits of `n`, most significant first.
pub open spec fn spec_dec_chars(n: nat) -> Seq<char>
    decreases n,
{
    if n < 10 {
        seq![spec_digit_char(n)]
    } else {
        spec_dec_chars(n / 10).push(spec_digit_char(n % 10))
    }
}

/// The seed the manager derives for the sensor at position `pos` of a
/// module's batch: the module name, the hardware id and the position, joined
/// by underscores.
pub open spec fn module_seed(name: Seq<char>, hw_id: u8, pos: nat) -> Seq<char> {
    name + seq!['_'] + spec_dec_chars(hw_id as nat) + seq!['_'] + spec_dec_chars(pos)
}

/// The well-known seed of the sentinel identifier substituted when a derived
/// seed collides; registration never aborts on a collision.
pub open spec fn fallback_seed() -> Seq<char> {
    "0xdeadbeef"@
}

fn digit_str(d: u64) -> (r: &'static str)
    requires
        d < 10,
    ensures
        r@ == seq![spec_digit_char(d as nat)],
{
    proof {
        reveal_strlit("0");
        reveal_strlit("1");
        reveal_strlit("2");
        reveal_strlit("3");
        reveal_strlit("4");
        reveal_strlit("5");
        reveal_strlit("6");
        reveal_strlit("7");
        reveal_strlit("8");
        reveal_strlit("9");
    }
    let r = if d == 0 {
        "0"
    } else if d == 1 {
        "1"
    } else if d == 2 {
        "2"
    } else if d == 3 {
        "3"
    } else if d == 4 {
        "4"
    } else if d == 5 {
        "5"
    } else if d == 6 {
        "6"
    } else if d == 7 {
        "7"
    } else if d == 8 {
        "8"
    } else {
        "9"
    };
    proof {
        assert(r@ =~= seq![spec_digit_char(d as nat)]);
    }
    r
}

fn dec_string(n: u64) -> (r: String)
    ensures
        r@ == spec_dec_chars(n as nat),
    decreases n,
{
    if n < 10 {
        digit_str(n).to_owned()
    } else {
        let mut s = dec_string(n / 10);
        s.append(digit_str(n % 10));
        proof {
            assert(s@ =~= spec_dec_chars(n as nat));
        }
        s
    }
}

fn module_seed_string(name: &str, hw_id: u8, pos: usize) -> (r: String)
    ensures
        r@ == module_seed(name@, hw_id, pos as nat),
{
    proof {
        reveal_strlit("_");
    }
    let mut s = name.to_owned();
    s.append("_");
    let hw = dec_string(hw_id as u64);
    s.append(hw.as_str());
    s.append("_");
    let p = dec_string(pos as u64);
    s.append(p.as_str());
    proof {
        assert("_"@ =~= seq!['_']);
        assert(s@ =~= module_seed(name@, hw_id, pos as nat));
    }
    s
}

/// The identifier assigned to one sensor of a batch, and the generator state
/// afterwards: a sensor that already carries an identifier keeps it (and the
/// generator is untouched); otherwise the seed for this batch position is
/// hashed, and on a collision the sentinel identifier is substituted without
/// recording anything.
pub open spec fn head_assign(
    generated: Seq<Suid>,
    name: Seq<char>,
    hw_id: u8,
    sensor: Sensor,
    pos: nat,
) -> (Suid, Seq<Suid>) {
    match sensor.suid {
        Some(s) => (s, generated),
        None => {
            let h = spec_suid_of(module_seed(name, hw_id, pos));
            if generated.contains(h) {
                (spec_suid_of(fallback_seed()), generated)
            } else {
                (h, generated.push(h))
            }
        },
    }
}

/// The identifiers assigned to a whole batch, in order, with the final
/// generator state.
pub open spec fn spec_assign_suids(
    generated: Seq<Suid>,
    name: Seq<char>,
    hw_id: u8,
    batch: Seq<Sensor>,
    pos: nat,
) -> (Seq<Suid>, Seq<Suid>)
    decreases batch.len(),
{
    if batch.len() == 0 {
        (Seq::empty(), generated)
    } else {
        let head = head_assign(generated, name, hw_id, batch[0], pos);
        let rest = spec_assign_suids(head.1, name, hw_id, batch.skip(1), pos + 1);
        (seq![head.0] + rest.0, rest.1)
    }
}

/// A batch after registration: each sensor carries its assigned identifier
/// and its attribute store unchanged.
pub open spec fn assigned_batch(batch: Seq<Sensor>, suids: Seq<Suid>) -> Seq<Sensor> {
    Seq::new(batch.len(), |i: int| Sensor { suid: Some(suids[i]), attrs: batch[i].attrs })
}

/// Extending a batch by one sensor assigns the earlier identifiers unchanged
/// and then assigns the new sensor from the resulting generator state.
proof fn lemma_assign_push(
    generated: Seq<Suid>,
    name: Seq<char>,
    hw_id: u8,
    batch: Seq<Sensor>,
    e: Sensor,
    pos: nat,
)
    ensures
        ({
            let r = spec_assign_suids(generated, name, hw_id, batch, pos);
            let head = head_assign(r.1, name, hw_id, e, pos + batch.len());
            spec_assign_suids(generated, name, hw_id, batch.push(e), pos).0 == r.0.push(head.0)
                && spec_assign_suids(generated, name, hw_id, batch.push(e), pos).1 == head.1
        }),
    decreases batch.len(),
{
    if batch.len() == 0 {
        assert(batch.push(e)[0] == e);
        assert(batch.push(e).skip(1) =~= Seq::<Sensor>::empty());
        let head = head_assign(generated, name, hw_id, e, pos);
        assert(spec_assign_suids(head.1, name, hw_id, Seq::<Sensor>::empty(), pos + 1).0
            == Seq::<Suid>::empty());
        assert(spec_assign_suids(generated, name, hw_id, batch.push(e), pos).0 =~= seq![head.0]);
        assert(spec_assign_suids(generated, name, hw_id, batch, pos).0.push(head.0)
            =~= seq![head.0]);
    } else {
        assert(batch.push(e)[0] == batch[0]);
        assert(batch.push(e).skip(1) =~= batch.skip(1).push(e));
        let head0 = head_assign(generated, name, hw_id, batch[0], pos);
        lemma_assign_push(head0.1, name, hw_id, batch.skip(1), e, pos + 1);
        let r1 = spec_assign_suids(head0.1, name, hw_id, batch.skip(1), pos + 1);
        let r = spec_assign_suids(generated, name, hw_id, batch, pos);
        let head = head_assign(r.1, name, hw_id, e, pos + batch.len());
        assert(spec_assign_suids(generated, name, hw_id, batch.push(e), pos).0
            =~= r.0.push(head.0));
    }
}

/// What the assignment policy gives each position of a batch: a sensor that
/// arrived with an identifier keeps it; a fresh sensor is assigned the
/// deterministic hash of its module seed, or the sentinel identifier when
/// that hash collides with one already produced.
pub proof fn lemma_spec_assign_facts(
    generated: Seq<Suid>,
    name: Seq<char>,
    hw_id: u8,
    batch: Seq<Sensor>,
    pos: nat,
)
    ensures
        spec_assign_suids(generated, name, hw_id, batch, pos).0.len() == batch.len(),
        forall|i: int|
            0 <= i < batch.len() && (#[trigger] batch[i]).suid is Some ==> spec_assign_suids(
                generated,
                name,
                hw_id,
                batch,
                pos,
            ).0[i] == batch[i].suid->0,
        forall|i: int|
            0 <= i < batch.len() && (#[trigger] batch[i]).suid is None ==> (spec_assign_suids(
                generated,
                name,
                hw_id,
                batch,
                pos,
            ).0[i] == spec_suid_of(module_seed(name, hw_id, (pos + i) as nat))
                || spec_assign_suids(generated, name, hw_id, batch, pos).0[i] == spec_suid_of(
                fallback_seed(),
            )),
    decreases batch.len(),
{
    if batch.len() > 0 {
        let head0 = head_assign(generated, name, hw_id, batch[0], pos);
        lemma_spec_assign_facts(head0.1, name, hw_id, batch.skip(1), pos + 1);
        let r = spec_assign_suids(generated, name, hw_id, batch, pos);
        let r1 = spec_assign_suids(head0.1, name, hw_id, batch.skip(1), pos + 1);
        assert(forall|i: int| 1 <= i < batch.len() ==> r.0[i] == r1.0[i - 1]);
        assert(forall|i: int| 1 <= i < batch.len() ==> batch.skip(1)[i - 1] == batch[i]);
    }
}

/// One module key's record: the identifiers the module's sensors were
/// assigned, in registration order.
pub struct ModuleEntry {
    pub name: String,
    pub hw_id: u8,
    pub suids: Vec<Suid>,
}

/// No identifier occurs twice in the identifier index.
pub open spec fn index_wf(ix: Seq<(Suid, usize)>) -> bool {
    forall|k1: int, k2: int|
        0 <= k1 < k2 < ix.len() ==> (#[trigger] ix[k1]).0 != (#[trigger] ix[k2]).0
}

/// The identifier index knows `s`.
pub open spec fn index_has(ix: Seq<(Suid, usize)>, s: Suid) -> bool {
    exists|k: int| 0 <= k < ix.len() && (#[trigger] ix[k]).0 == s
}

/// The storage slot the identifier index assigns to `s` (meaningful only
/// when `index_has(ix, s)`).
pub open spec fn index_slot(ix: Seq<(Suid, usize)>, s: Suid) -> usize {
    ix[choose|k: int| 0 <= k < ix.len() && (#[trigger] ix[k]).0 == s].1
}

/// No module key (name, hardware id) occurs twice.
pub open spec fn mod_key_wf(ms: Seq<ModuleEntry>) -> bool {
    forall|k1: int, k2: int|
        0 <= k1 < k2 < ms.len() ==> !((#[trigger] ms[k1]).name@ == (#[trigger] ms[k2]).name@
            && ms[k1].hw_id == ms[k2].hw_id)
}

/// Some module entry carries this key.
pub open spec fn mod_has(ms: Seq<ModuleEntry>, name: Seq<char>, hw_id: u8) -> bool {
    exists|k: int|
        0 <= k < ms.len() && (#[trigger] ms[k]).name@ == name && ms[k].hw_id == hw_id
}

/// The identifiers recorded under this module key (meaningful only when
/// `mod_has(ms, name, hw_id)`).
pub open spec fn mod_suids(ms: Seq<ModuleEntry>, name: Seq<char>, hw_id: u8) -> Seq<Suid> {
    ms[choose|k: int|
        0 <= k < ms.len() && (#[trigger] ms[k]).name@ == name && ms[k].hw_id == hw_id].suids@
}

/// All identifiers recorded under any module key with this name, in entry
/// order.
pub open spec fn mod_suids_all(ms: Seq<ModuleEntry>, name: Seq<char>) -> Seq<Suid>
    decreases ms.len(),
{
    if ms.len() == 0 {
        Seq::empty()
    } else {
        (if ms[0].name@ == name {
            ms[0].suids@
        } else {
            Seq::empty()
        }) + mod_suids_all(ms.skip(1), name)
    }
}

/// Appending a module entry contributes its identifiers at the end of the
/// per-name union exactly when its name matches.
proof fn lemma_mod_suids_all_push(ms: Seq<ModuleEntry>, e: ModuleEntry, name: Seq<char>)
    ensures
        mod_suids_all(ms.push(e), name) == mod_suids_all(ms, name) + (if e.name@ == name {
            e.suids@
        } else {
            Seq::<Suid>::empty()
        }),
    decreases ms.len(),
{
    let added = if e.name@ == name {
        e.suids@
    } else {
        Seq::<Suid>::empty()
    };
    if ms.len() == 0 {
        assert(ms.push(e)[0] == e);
        assert(ms.push(e).skip(1) =~= Seq::<ModuleEntry>::empty());
        assert(mod_suids_all(Seq::<ModuleEntry>::empty(), name) == Seq::<Suid>::empty());
        assert(mod_suids_all(ms.push(e), name) == added + Seq::<Suid>::empty());
        assert(mod_suids_all(ms.push(e), name) =~= mod_suids_all(ms, name) + added);
    } else {
        assert(ms.push(e)[0] == ms[0]);
        assert(ms.push(e).skip(1) =~= ms.skip(1).push(e));
        lemma_mod_suids_all_push(ms.skip(1), e, name);
        assert(mod_suids_all(ms.push(e), name) =~= mod_suids_all(ms, name) + added);
    }
}

fn index_find(ix: &Vec<(Suid, usize)>, s: Suid) -> (r: Option<usize>)
    ensures
        match r {
            Some(k) => k < ix@.len() && ix@[k as int].0 == s && (forall|j: int|
                0 <= j < k ==> (#[trigger] ix@[j]).0 != s),
            None => forall|j: int| 0 <= j < ix@.len() ==> (#[trigger] ix@[j]).0 != s,
        },
{
    let mut k: usize = 0;
    while k < ix.len()
        invariant
            0 <= k <= ix@.len(),
            forall|j: int| 0 <= j < k ==> (#[trigger] ix@[j]).0 != s,
        decreases ix@.len() - k,
    {
        if ix[k].0 == s {
            return Some(k);
        }
        k += 1;
    }
    None
}

/// Records that identifier `s` now lives in storage slot `slot`, replacing
/// any earlier record for `s`.
fn index_upsert(ix: &mut Vec<(Suid, usize)>, s: Suid, slot: usize)
    requires
        index_wf(old(ix)@),
    ensures
        index_wf(final(ix)@),
        forall|x: Suid| #[trigger]
            index_has(final(ix)@, x) <==> (index_has(old(ix)@, x) || x == s),
        index_has(final(ix)@, s) && index_slot(final(ix)@, s) == slot,
        forall|x: Suid|
            x != s && index_has(old(ix)@, x) ==> #[trigger] index_slot(final(ix)@, x)
                == index_slot(old(ix)@, x),
        forall|k: int|
            0 <= k < final(ix)@.len() ==> ((exists|k0: int|
                0 <= k0 < old(ix)@.len() && (#[trigger] final(ix)@[k]) == old(ix)@[k0])
                || final(ix)@[k] == (s, slot)),
{
    let ghost ix0 = ix@;
    match index_find(ix, s) {
        Some(k) => {
            let e = &mut ix[k];
            *e = (s, slot);
            proof {
                let ixf = ix@;
                assert(ixf =~= ix0.update(k as int, (s, slot)));
                assert(forall|j: int| 0 <= j < ixf.len() ==> (#[trigger] ixf[j]).0 == ix0[j].0);
                assert(index_wf(ixf));
                assert forall|x: Suid| index_has(ixf, x) implies (index_has(ix0, x) || x == s) by {
                    let w = choose|w: int| 0 <= w < ixf.len() && (#[trigger] ixf[w]).0 == x;
                    assert(ix0[w].0 == x);
                }
                assert forall|x: Suid| index_has(ix0, x) implies index_has(ixf, x) by {
                    let w = choose|w: int| 0 <= w < ix0.len() && (#[trigger] ix0[w]).0 == x;
                    assert(ixf[w].0 == x);
                }
                assert(ixf[k as int].0 == s);
                assert(index_has(ixf, s));
                let w = choose|w: int| 0 <= w < ixf.len() && (#[trigger] ixf[w]).0 == s;
                if w != k as int {
                    assert(ixf[w].0 != ixf[k as int].0);
                }
                assert(index_slot(ixf, s) == slot);
                assert forall|x: Suid| x != s && index_has(ix0, x) implies index_slot(ixf, x)
                    == index_slot(ix0, x) by {
                    let w0 = choose|w0: int| 0 <= w0 < ix0.len() && (#[trigger] ix0[w0]).0 == x;
                    assert(ixf[w0].0 == x);
                    let wf0 = choose|wf0: int| 0 <= wf0 < ixf.len() && (#[trigger] ixf[wf0]).0 == x;
                    if wf0 != w0 {
                        assert(ixf[wf0].0 != ixf[w0].0);
                    }
                    assert(wf0 != k as int);
                    assert(ixf[wf0] == ix0[wf0]);
                }
            }
        },
        None => {
            ix.push((s, slot));
            proof {
                let ixf = ix@;
                assert(ixf =~= ix0.push((s, slot)));
                assert(forall|j: int| 0 <= j < ix0.len() ==> (#[trigger] ixf[j]) == ix0[j]);
                assert(ixf[ix0.len() as int] == (s, slot));
                assert(index_wf(ixf));
                assert forall|x: Suid| index_has(ixf, x) implies (index_has(ix0, x) || x == s) by {
                    let w = choose|w: int| 0 <= w < ixf.len() && (#[trigger] ixf[w]).0 == x;
                    if w < ix0.len() {
                        assert(ix0[w].0 == x);
                    }
                }
                assert forall|x: Suid| index_has(ix0, x) implies index_has(ixf, x) by {
                    let w = choose|w: int| 0 <= w < ix0.len() && (#[trigger] ix0[w]).0 == x;
                    assert(ixf[w].0 == x);
                }
                assert(index_has(ixf, s));
                let w = choose|w: int| 0 <= w < ixf.len() && (#[trigger] ixf[w]).0 == s;
                if w != ix0.len() as int {
                    assert(ix0[w].0 != s);
                }
                assert(index_slot(ixf, s) == slot);
                assert forall|x: Suid| x != s && index_has(ix0, x) implies index_slot(ixf, x)
                    == index_slot(ix0, x) by {
                    let w0 = choose|w0: int| 0 <= w0 < ix0.len() && (#[trigger] ix0[w0]).0 == x;
                    assert(ixf[w0].0 == x);
                    let wf0 = choose|wf0: int| 0 <= wf0 < ixf.len() && (#[trigger] ixf[wf0]).0 == x;
                    if wf0 == ix0.len() as int {
                        assert(ixf[wf0].0 == s);
                    }
                    if wf0 != w0 {
                        assert(ixf[wf0].0 != ixf[w0].0);
                    }
                }
            }
        },
    }
}


/// The identifier occurs among the first `t` positions of the batch.
pub open spec fn in_prefix(s: Seq<Suid>, t: int, x: Suid) -> bool {
    exists|j: int| 0 <= j < t && s[j] == x
}

/// An identifier occurs in a prefix one longer exactly when it occurs in the
/// shorter prefix or is the element at the boundary.
proof fn lemma_in_prefix_step(s: Seq<Suid>, t: int)
    requires
        0 <= t < s.len(),
    ensures
        forall|x: Suid| #[trigger] in_prefix(s, t + 1, x) <==> (in_prefix(s, t, x) || x == s[t]),
{
    assert forall|x: Suid| (in_prefix(s, t, x) || x == s[t]) implies in_prefix(s, t + 1, x) by {
        if x == s[t] {
            assert(s[t] == x);
        }
    }
}

/// An identifier occurs in the whole batch exactly when the batch contains
/// it.
proof fn lemma_in_prefix_whole(s: Seq<Suid>)
    ensures
        forall|x: Suid| #[trigger] in_prefix(s, s.len() as int, x) <==> s.contains(x),
{
}


/// After recording batch position `t`, every earlier position without a
/// later duplicate still resolves to its own slot, and position `t` does too.
proof fn lemma_record_step_slots(
    ixb: Seq<(Suid, usize)>,
    ixf: Seq<(Suid, usize)>,
    s: Seq<Suid>,
    start: usize,
    t: int,
)
    requires
        0 <= t < s.len(),
        start + s.len() <= usize::MAX,
        forall|j: int|
            0 <= j < t && (forall|j2: int| j < j2 < t ==> s[j2] != s[j]) ==> index_has(
                ixb,
                #[trigger] s[j],
            ) && index_slot(ixb, s[j]) as int == start + j,
        index_has(ixf, s[t]) && index_slot(ixf, s[t]) == (start + t) as usize,
        forall|x: Suid| #[trigger] index_has(ixf, x) <==> (index_has(ixb, x) || x == s[t]),
        forall|x: Suid|
            x != s[t] && index_has(ixb, x) ==> #[trigger] index_slot(ixf, x) == index_slot(ixb, x),
    ensures
        forall|j: int|
            0 <= j < t + 1 && (forall|j2: int| j < j2 < t + 1 ==> s[j2] != s[j]) ==> index_has(
                ixf,
                #[trigger] s[j],
            ) && index_slot(ixf, s[j]) as int == start + j,
{
    assert forall|j: int|
        0 <= j < t + 1 && (forall|j2: int| j < j2 < t + 1 ==> s[j2] != s[j]) implies index_has(
        ixf,
        #[trigger] s[j],
    ) && index_slot(ixf, s[j]) as int == start + j by {
        if j < t {
            assert(s[t] != s[j]);
            assert(forall|j2: int| j < j2 < t ==> s[j2] != s[j]);
            assert(index_has(ixb, s[j]) && index_slot(ixb, s[j]) as int == start + j);
        }
    }
}

/// After recording batch position `t`, the index knows exactly the
/// identifiers it knew before the batch and the first `t + 1` batch
/// positions.
proof fn lemma_record_step_has(
    ix0: Seq<(Suid, usize)>,
    ixb: Seq<(Suid, usize)>,
    ixf: Seq<(Suid, usize)>,
    s: Seq<Suid>,
    t: int,
)
    requires
        0 <= t < s.len(),
        forall|x: Suid| #[trigger] in_prefix(s, t + 1, x) <==> (in_prefix(s, t, x) || x == s[t]),
        forall|x: Suid| #[trigger] index_has(ixb, x) <==> (index_has(ix0, x) || in_prefix(s, t, x)),
        forall|x: Suid| #[trigger] index_has(ixf, x) <==> (index_has(ixb, x) || x == s[t]),
    ensures
        forall|x: Suid| #[trigger]
            index_has(ixf, x) <==> (index_has(ix0, x) || in_prefix(s, t + 1, x)),
{
    assert forall|x: Suid| #[trigger]
        index_has(ixf, x) <==> (index_has(ix0, x) || in_prefix(s, t + 1, x)) by {
        assert(index_has(ixf, x) <==> (index_has(ixb, x) || x == s[t]));
        assert(index_has(ixb, x) <==> (index_has(ix0, x) || in_prefix(s, t, x)));
        assert(in_prefix(s, t + 1, x) <==> (in_prefix(s, t, x) || x == s[t]));
    }
}

/// After recording batch position `t`, identifiers that were indexed before
/// the batch and do not occur in the first `t + 1` positions keep their slot.
proof fn lemma_record_step_untouched(
    ix0: Seq<(Suid, usize)>,
    ixb: Seq<(Suid, usize)>,
    ixf: Seq<(Suid, usize)>,
    s: Seq<Suid>,
    start: usize,
    t: int,
)
    requires
        0 <= t < s.len(),
        forall|x: Suid| #[trigger] in_prefix(s, t + 1, x) <==> (in_prefix(s, t, x) || x == s[t]),
        forall|x: Suid|
            index_has(ix0, x) && !in_prefix(s, t, x) ==> #[trigger] index_slot(ixb, x)
                == index_slot(ix0, x),
        forall|x: Suid| #[trigger] index_has(ixb, x) <==> (index_has(ix0, x) || in_prefix(s, t, x)),
        forall|x: Suid|
            x != s[t] && index_has(ixb, x) ==> #[trigger] index_slot(ixf, x) == index_slot(ixb, x),
    ensures
        forall|x: Suid|
            index_has(ix0, x) && !in_prefix(s, t + 1, x) ==> #[trigger] index_slot(ixf, x)
                == index_slot(ix0, x),
{
    assert forall|x: Suid|
        index_has(ix0, x) && !in_prefix(s, t + 1, x) implies index_slot(ixf, x) == index_slot(
        ix0,
        x,
    ) by {
        assert(!in_prefix(s, t, x));
        assert(x != s[t]);
        assert(index_has(ixb, x));
    }
}

/// After recording batch position `t`, every index entry either predates the
/// batch or records one of the first `t + 1` positions at its batch slot.
proof fn lemma_record_step_entries(
    ix0: Seq<(Suid, usize)>,
    ixb: Seq<(Suid, usize)>,
    ixf: Seq<(Suid, usize)>,
    s: Seq<Suid>,
    start: usize,
    t: int,
)
    requires
        0 <= t < s.len(),
        start + s.len() <= usize::MAX,
        forall|k: int| 0 <= k < ixb.len() ==> entry_from(#[trigger] ixb[k], ix0, s, start, t),
        forall|k: int|
            0 <= k < ixf.len() ==> ((exists|k0: int|
                0 <= k0 < ixb.len() && (#[trigger] ixf[k]) == ixb[k0]) || ixf[k] == (
                s[t],
                (start + t) as usize,
            )),
    ensures
        forall|k: int| 0 <= k < ixf.len() ==> entry_from(#[trigger] ixf[k], ix0, s, start, t + 1),
{
    assert forall|k: int| 0 <= k < ixf.len() implies entry_from(
        #[trigger] ixf[k],
        ix0,
        s,
        start,
        t + 1,
    ) by {
        if exists|k0: int| 0 <= k0 < ixb.len() && (#[trigger] ixf[k]) == ixb[k0] {
            let k0 = choose|k0: int| 0 <= k0 < ixb.len() && (#[trigger] ixf[k]) == ixb[k0];
            assert(entry_from(ixb[k0], ix0, s, start, t));
        }
    }
}

/// The index entry `e` was either already present in `ix0` or records one of
/// the first `t` batch identifiers at its batch slot.
pub open spec fn entry_from(
    e: (Suid, usize),
    ix0: Seq<(Suid, usize)>,
    s: Seq<Suid>,
    start: usize,
    t: int,
) -> bool {
    (exists|k0: int| 0 <= k0 < ix0.len() && e == ix0[k0]) || (exists|j: int|
        0 <= j < t && e == (s[j], (start + j) as usize))
}

/// Records that the batch's identifiers live in consecutive storage slots
/// from `start` on; for a duplicated identifier the later batch position
/// wins, as each record replaces the earlier one.
#[verifier::rlimit(20)]
fn index_record_batch(ix: &mut Vec<(Suid, usize)>, su: &Vec<Suid>, start: usize)
    requires
        index_wf(old(ix)@),
        start + su@.len() <= usize::MAX,
    ensures
        index_wf(final(ix)@),
        forall|x: Suid| #[trigger]
            index_has(final(ix)@, x) <==> (index_has(old(ix)@, x) || su@.contains(x)),
        forall|j: int|
            0 <= j < su@.len() && (forall|j2: int| j < j2 < su@.len() ==> su@[j2] != su@[j])
                ==> index_has(final(ix)@, #[trigger] su@[j]) && index_slot(final(ix)@, su@[j]) as int
                == start + j,
        forall|x: Suid|
            index_has(old(ix)@, x) && !su@.contains(x) ==> #[trigger] index_slot(final(ix)@, x)
                == index_slot(old(ix)@, x),
        forall|k: int|
            0 <= k < final(ix)@.len() ==> entry_from(
                #[trigger] final(ix)@[k],
                old(ix)@,
                su@,
                start,
                su@.len() as int,
            ),
{
    let ghost ix0 = ix@;
    let ghost s = su@;
    let mut t: usize = 0;
    while t < su.len()
        invariant
            0 <= t <= s.len(),
            s == su@,
            ix0 == old(ix)@,
            start + s.len() <= usize::MAX,
            index_wf(ix@),
            forall|x: Suid| #[trigger]
                index_has(ix@, x) <==> (index_has(ix0, x) || in_prefix(s, t as int, x)),
            forall|j: int|
                0 <= j < t && (forall|j2: int| j < j2 < t ==> s[j2] != s[j]) ==> index_has(
                    ix@,
                    #[trigger] s[j],
                ) && index_slot(ix@, s[j]) as int == start + j,
            forall|x: Suid|
                index_has(ix0, x) && !in_prefix(s, t as int, x) ==> #[trigger] index_slot(ix@, x)
                    == index_slot(ix0, x),
            forall|k: int|
                0 <= k < ix@.len() ==> entry_from(#[trigger] ix@[k], ix0, s, start, t as int),
        decreases s.len() - t,
    {
        let ghost ix_before = ix@;
        let slot = start + t;
        index_upsert(ix, su[t], slot);
        proof {
            lemma_in_prefix_step(s, t as int);
            lemma_record_step_has(ix0, ix_before, ix@, s, t as int);
            lemma_record_step_slots(ix_before, ix@, s, start, t as int);
            lemma_record_step_untouched(ix0, ix_before, ix@, s, start, t as int);
            lemma_record_step_entries(ix0, ix_before, ix@, s, start, t as int);
        }
        t += 1;
    }
    proof {
        assert(s.take(s.len() as int) =~= s);
    }
}

fn mod_find(ms: &Vec<ModuleEntry>, name: &str, hw_id: u8) -> (r: Option<usize>)
    ensures
        match r {
            Some(k) => k < ms@.len() && ms@[k as int].name@ == name@ && ms@[k as int].hw_id == hw_id,
            None => forall|j: int|
                0 <= j < ms@.len() ==> !((#[trigger] ms@[j]).name@ == name@ && ms@[j].hw_id
                    == hw_id),
        },
{
    let key = name.to_owned();
    let mut k: usize = 0;
    while k < ms.len()
        invariant
            key@ == name@,
            0 <= k <= ms@.len(),
            forall|j: int|
                0 <= j < k ==> !((#[trigger] ms@[j]).name@ == name@ && ms@[j].hw_id == hw_id),
        decreases ms@.len() - k,
    {
        if ms[k].name == key && ms[k].hw_id == hw_id {
            return Some(k);
        }
        k += 1;
    }
    None
}

/// Records the batch's identifiers under the module key, replacing any
/// earlier record for that key.
fn mod_upsert(ms: &mut Vec<ModuleEntry>, name: &str, hw_id: u8, suids: Vec<Suid>)
    requires
        mod_key_wf(old(ms)@),
    ensures
        mod_key_wf(final(ms)@),
        forall|n2: Seq<char>, h2: u8|
            mod_has(final(ms)@, n2, h2) <==> (mod_has(old(ms)@, n2, h2) || (n2 == name@ && h2
                == hw_id)),
        mod_suids(final(ms)@, name@, hw_id) == suids@,
        forall|n2: Seq<char>, h2: u8|
            !(n2 == name@ && h2 == hw_id) && mod_has(old(ms)@, n2, h2) ==> mod_suids(
                final(ms)@,
                n2,
                h2,
            ) == mod_suids(old(ms)@, n2, h2),
        forall|k: int|
            0 <= k < final(ms)@.len() ==> ((exists|k0: int|
                0 <= k0 < old(ms)@.len() && (#[trigger] final(ms)@[k]) == old(ms)@[k0])
                || final(ms)@[k].suids@ == suids@),
{
    let ghost ms0 = ms@;
    match mod_find(ms, name, hw_id) {
        Some(k) => {
            proof {
                assert forall|j: int|
                    0 <= j < ms0.len() && j != k implies !((#[trigger] ms0[j]).name@ == name@
                        && ms0[j].hw_id == hw_id) by {
                    if 0 <= j < ms0.len() && j != k as int {
                        if j < k as int {
                            assert(!(ms0[j].name@ == ms0[k as int].name@ && ms0[j].hw_id == ms0[
                                k as int].hw_id));
                        } else {
                            assert(!(ms0[k as int].name@ == ms0[j].name@ && ms0[k as int].hw_id
                                == ms0[j].hw_id));
                        }
                    }
                }
            }
            let e = &mut ms[k];
            e.suids = suids;
            proof {
                let msf = ms@;
                assert(msf =~= ms0.update(k as int, msf[k as int]));
                assert(msf[k as int].name@ == name@ && msf[k as int].hw_id == hw_id);
                assert(forall|j: int|
                    0 <= j < msf.len() ==> (#[trigger] msf[j]).name@ == ms0[j].name@ && msf[j].hw_id
                        == ms0[j].hw_id);
                assert(mod_key_wf(msf));
                assert forall|n2: Seq<char>, h2: u8| mod_has(msf, n2, h2) implies (mod_has(
                    ms0,
                    n2,
                    h2,
                ) || (n2 == name@ && h2 == hw_id)) by {
                    let w = choose|w: int|
                        0 <= w < msf.len() && (#[trigger] msf[w]).name@ == n2 && msf[w].hw_id == h2;
                    assert(ms0[w].name@ == n2 && ms0[w].hw_id == h2);
                }
                assert forall|n2: Seq<char>, h2: u8| mod_has(ms0, n2, h2) implies mod_has(
                    msf,
                    n2,
                    h2,
                ) by {
                    let w = choose|w: int|
                        0 <= w < ms0.len() && (#[trigger] ms0[w]).name@ == n2 && ms0[w].hw_id == h2;
                    assert(msf[w].name@ == n2 && msf[w].hw_id == h2);
                }
                assert(mod_has(msf, name@, hw_id));
                let w = choose|w: int|
                    0 <= w < msf.len() && (#[trigger] msf[w]).name@ == name@ && msf[w].hw_id
                        == hw_id;
                if w != k as int {
                    assert(!(msf[w].name@ == msf[k as int].name@ && msf[w].hw_id == msf[
                        k as int].hw_id));
                }
                assert(mod_suids(msf, name@, hw_id) == msf[k as int].suids@);
                assert forall|n2: Seq<char>, h2: u8|
                    !(n2 == name@ && h2 == hw_id) && mod_has(ms0, n2, h2) implies mod_suids(
                    msf,
                    n2,
                    h2,
                ) == mod_suids(ms0, n2, h2) by {
                    let w0 = choose|w0: int|
                        0 <= w0 < ms0.len() && (#[trigger] ms0[w0]).name@ == n2 && ms0[w0].hw_id
                            == h2;
                    let wf0 = choose|wf0: int|
                        0 <= wf0 < msf.len() && (#[trigger] msf[wf0]).name@ == n2 && msf[wf0].hw_id
                            == h2;
                    assert(msf[w0].name@ == n2 && msf[w0].hw_id == h2);
                    if wf0 != w0 {
                        assert(!(msf[wf0].name@ == msf[w0].name@ && msf[wf0].hw_id == msf[
                            w0].hw_id));
                    }
                    assert(wf0 != k as int);
                    assert(msf[wf0] == ms0[wf0]);
                }
            }
        },
        None => {
            let key = name.to_owned();
            ms.push(ModuleEntry { name: key, hw_id, suids });
            proof {
                let msf = ms@;
                assert(forall|j: int| 0 <= j < ms0.len() ==> (#[trigger] msf[j]) == ms0[j]);
                assert(msf[ms0.len() as int].name@ == name@ && msf[ms0.len() as int].hw_id
                    == hw_id);
                assert(mod_key_wf(msf));
                assert forall|n2: Seq<char>, h2: u8| mod_has(msf, n2, h2) implies (mod_has(
                    ms0,
                    n2,
                    h2,
                ) || (n2 == name@ && h2 == hw_id)) by {
                    let w = choose|w: int|
                        0 <= w < msf.len() && (#[trigger] msf[w]).name@ == n2 && msf[w].hw_id == h2;
                    if w < ms0.len() {
                        assert(ms0[w].name@ == n2 && ms0[w].hw_id == h2);
                    }
                }
                assert forall|n2: Seq<char>, h2: u8| mod_has(ms0, n2, h2) implies mod_has(
                    msf,
                    n2,
                    h2,
                ) by {
                    let w = choose|w: int|
                        0 <= w < ms0.len() && (#[trigger] ms0[w]).name@ == n2 && ms0[w].hw_id == h2;
                    assert(msf[w].name@ == n2 && msf[w].hw_id == h2);
                }
                assert(mod_has(msf, name@, hw_id));
                let w = choose|w: int|
                    0 <= w < msf.len() && (#[trigger] msf[w]).name@ == name@ && msf[w].hw_id
                        == hw_id;
                if w != ms0.len() as int {
                    assert(!(ms0[w].name@ == name@ && ms0[w].hw_id == hw_id));
                }
                assert(mod_suids(msf, name@, hw_id) == msf[ms0.len() as int].suids@);
                assert forall|n2: Seq<char>, h2: u8|
                    !(n2 == name@ && h2 == hw_id) && mod_has(ms0, n2, h2) implies mod_suids(
                    msf,
                    n2,
                    h2,
                ) == mod_suids(ms0, n2, h2) by {
                    let w0 = choose|w0: int|
                        0 <= w0 < ms0.len() && (#[trigger] ms0[w0]).name@ == n2 && ms0[w0].hw_id
                            == h2;
                    let wf0 = choose|wf0: int|
                        0 <= wf0 < msf.len() && (#[trigger] msf[wf0]).name@ == n2 && msf[wf0].hw_id
                            == h2;
                    assert(msf[w0].name@ == n2 && msf[w0].hw_id == h2);
                    if wf0 == ms0.len() as int {
                        assert(msf[wf0].name@ == name@ && msf[wf0].hw_id == hw_id);
                    }
                    if wf0 != w0 {
                        assert(!(msf[wf0].name@ == msf[w0].name@ && msf[wf0].hw_id == msf[
                            w0].hw_id));
                    }
                    assert(msf[wf0] == ms0[wf0]);
                }
            }
        },
    }
}

/// The identifier is recorded under some module entry.
pub open spec fn suid_from_entries(ms: Seq<ModuleEntry>, x: Suid) -> bool {
    exists|k: int, t: int|
        0 <= k < ms.len() && 0 <= t < ms[k].suids@.len() && x == (#[trigger] ms[k].suids@[t])
}

/// Every identifier in the per-name union comes from some module entry.
proof fn lemma_mod_suids_all_from_entries(ms: Seq<ModuleEntry>, name: Seq<char>)
    ensures
        forall|i: int|
            0 <= i < mod_suids_all(ms, name).len() ==> suid_from_entries(
                ms,
                #[trigger] mod_suids_all(ms, name)[i],
            ),
    decreases ms.len(),
{
    if ms.len() > 0 {
        lemma_mod_suids_all_from_entries(ms.skip(1), name);
        let head = if ms[0].name@ == name {
            ms[0].suids@
        } else {
            Seq::<Suid>::empty()
        };
        assert(mod_suids_all(ms, name) == head + mod_suids_all(ms.skip(1), name));
        assert forall|i: int| 0 <= i < mod_suids_all(ms, name).len() implies suid_from_entries(
            ms,
            #[trigger] mod_suids_all(ms, name)[i],
        ) by {
            if i < head.len() {
                assert(mod_suids_all(ms, name)[i] == ms[0].suids@[i]);
            } else {
                let j = i - head.len();
                assert(mod_suids_all(ms, name)[i] == mod_suids_all(ms.skip(1), name)[j]);
                assert(suid_from_entries(ms.skip(1), mod_suids_all(ms.skip(1), name)[j]));
                let (k2, t2): (int, int) = choose|k2: int, t2: int|
                    0 <= k2 < ms.skip(1).len() && 0 <= t2 < ms.skip(1)[k2].suids@.len()
                        && mod_suids_all(ms.skip(1), name)[j] == (#[trigger] ms.skip(
                    1,
                )[k2].suids@[t2]);
                assert(ms.skip(1)[k2] == ms[k2 + 1]);
                assert(mod_suids_all(ms, name)[i] == ms[k2 + 1].suids@[t2]);
            }
        }
    }
}

/// Owns all registered sensors and mediates every external access to them.
pub struct SensorManager {
    generator: SuidGenerator,
    sensors: Vec<Sensor>,
    modules: Vec<ModuleEntry>,
    index: Vec<(Suid, usize)>,
}

impl SensorManager {
    /// The identifiers the manager's generator has produced so far.
    pub closed spec fn generated(&self) -> Seq<Suid> {
        self.generator@
    }

    /// The authoritative sensor list, in registration order.
    pub closed spec fn spec_sensors(&self) -> Seq<Sensor> {
        self.sensors@
    }

    /// The module key index.
    pub closed spec fn spec_modules(&self) -> Seq<ModuleEntry> {
        self.modules@
    }

    /// The identifier index.
    pub closed spec fn spec_index(&self) -> Seq<(Suid, usize)> {
        self.index@
    }

    /// A sensor with this identifier is registered.
    pub open spec fn spec_has_sensor(&self, s: Suid) -> bool {
        index_has(self.spec_index(), s)
    }

    /// The registered sensor this identifier resolves to, if any.
    pub open spec fn spec_sensor_for(&self, s: Suid) -> Option<Sensor> {
        if self.spec_has_sensor(s) {
            Some(self.spec_sensors()[index_slot(self.spec_index(), s) as int])
        } else {
            None
        }
    }

    /// The identifiers registered under the module key, if the key is known.
    pub open spec fn spec_module_suids(&self, name: Seq<char>, hw_id: u8) -> Option<Seq<Suid>> {
        if mod_has(self.spec_modules(), name, hw_id) {
            Some(mod_suids(self.spec_modules(), name, hw_id))
        } else {
            None
        }
    }

    /// The manager's invariant: indices are consistent with the sensor list.
    /// Every index entry points at a live slot whose sensor carries exactly
    /// the indexed identifier; every registered sensor is assigned and
    /// well-formed; module keys are unique; and every identifier recorded
    /// under a module key resolves through the identifier index.
    pub open spec fn wf(&self) -> bool {
        &&& index_wf(self.spec_index())
        &&& forall|k: int|
            0 <= k < self.spec_index().len() ==> (#[trigger] self.spec_index()[k]).1
                < self.spec_sensors().len() && self.spec_sensors()[self.spec_index()[k].1 as int].suid
                == Some(self.spec_index()[k].0)
        &&& forall|i: int|
            0 <= i < self.spec_sensors().len() ==> (#[trigger] self.spec_sensors()[i]).wf()
                && self.spec_sensors()[i].suid is Some
        &&& mod_key_wf(self.spec_modules())
        &&& forall|m: int, t: int|
            0 <= m < self.spec_modules().len() && 0 <= t < self.spec_modules()[m].suids@.len()
                ==> index_has(self.spec_index(), #[trigger] self.spec_modules()[m].suids@[t])
    }

    /// A fresh manager: no sensors, no module records, a fresh generator.
    pub fn new() -> (r: SensorManager)
        ensures
            r.wf(),
            r.spec_sensors() == Seq::<Sensor>::empty(),
            r.spec_modules() == Seq::<ModuleEntry>::empty(),
            r.spec_index() == Seq::<(Suid, usize)>::empty(),
            r.generated() == Seq::<Suid>::empty(),
    {
        SensorManager {
            generator: SuidGenerator::new(),
            sensors: Vec::new(),
            modules: Vec::new(),
            index: Vec::new(),
        }
    }

    /// The slot the identifier index assigns to `s`, if `s` is registered.
    fn find_slot(&self, s: &Suid) -> (r: Option<usize>)
        requires
            self.wf(),
        ensures
            match r {
                Some(slot) => self.spec_has_sensor(*s) && slot == index_slot(self.spec_index(), *s)
                    && slot < self.spec_sensors().len(),
                None => !self.spec_has_sensor(*s),
            },
    {
        let mut k: usize = 0;
        while k < self.index.len()
            invariant
                self.wf(),
                0 <= k <= self.spec_index().len(),
                forall|j: int| 0 <= j < k ==> (#[trigger] self.spec_index()[j]).0 != *s,
            decreases self.spec_index().len() - k,
        {
            if self.index[k].0 == *s {
                proof {
                    let k2 = choose|k2: int|
                        0 <= k2 < self.spec_index().len() && (#[trigger] self.spec_index()[k2]).0
                            == *s;
                    if k2 != k as int {
                        assert(self.spec_index()[k2].0 != self.spec_index()[k as int].0);
                    }
                }
                return Some(self.index[k].1);
            }
            k += 1;
        }
        None
    }

    /// Whether a sensor with this identifier is registered.
    pub fn has_sensor(&self, suid: &Suid) -> (r: bool)
        requires
            self.wf(),
        ensures
            r == self.spec_has_sensor(*suid),
    {
        self.find_slot(suid).is_some()
    }

    /// How many sensors are registered.
    pub fn sensor_count(&self) -> (r: usize)
        ensures
            r == self.spec_sensors().len(),
    {
        self.sensors.len()
    }

    /// Shared access to the sensor with this identifier; the empty result
    /// when the identifier is unknown, which is not a fault.
    pub fn get_sensor(&self, suid: &Suid) -> (r: Option<&Sensor>)
        requires
            self.wf(),
        ensures
            match r {
                Some(sensor) => self.spec_sensor_for(*suid) == Some(*sensor),
                None => !self.spec_has_sensor(*suid),
            },
    {
        match self.find_slot(suid) {
            Some(slot) => Some(&self.sensors[slot]),
            None => None,
        }
    }

    /// Exclusive access to the sensor with this identifier; the empty result
    /// when the identifier is unknown. While the borrow lives the caller may
    /// mutate the sensor in place; the indices stay untouched, so the manager
    /// stays consistent as long as the caller leaves the sensor's identifier
    /// assigned and its store well-formed.
    pub fn get_sensor_mut(&mut self, suid: &Suid) -> (r: Option<&mut Sensor>)
        requires
            old(self).wf(),
        ensures
            match r {
                Some(sensor) => {
                    &&& old(self).spec_sensor_for(*suid) == Some(*sensor)
                    &&& final(self).spec_sensors() == old(self).spec_sensors().update(
                        index_slot(old(self).spec_index(), *suid) as int,
                        *final(sensor),
                    )
                    &&& final(self).spec_index() == old(self).spec_index()
                    &&& final(self).spec_modules() == old(self).spec_modules()
                    &&& final(self).generated() == old(self).generated()
                    &&& (final(sensor).suid == sensor.suid && final(sensor).wf()
                        ==> final(self).wf())
                },
                None => !old(self).spec_has_sensor(*suid) && *final(self) == *old(self),
            },
    {
        match self.find_slot(suid) {
            Some(slot) => Some(&mut self.sensors[slot]),
            None => None,
        }
    }

    /// The identifiers registered under the module key (name, hardware id),
    /// in registration order; the empty result when the key is unknown.
    pub fn get_module_sensor_suids(&self, module_name: &str, hw_id: u8) -> (r: Option<&[Suid]>)
        requires
            self.wf(),
        ensures
            match r {
                Some(sl) => self.spec_module_suids(module_name@, hw_id) == Some(sl@),
                None => self.spec_module_suids(module_name@, hw_id) is None,
            },
    {
        let key = module_name.to_owned();
        let mut j: usize = 0;
        while j < self.modules.len()
            invariant
                self.wf(),
                key@ == module_name@,
                0 <= j <= self.spec_modules().len(),
                forall|k: int|
                    0 <= k < j ==> !((#[trigger] self.spec_modules()[k]).name@ == module_name@
                        && self.spec_modules()[k].hw_id == hw_id),
            decreases self.spec_modules().len() - j,
        {
            if self.modules[j].name == key && self.modules[j].hw_id == hw_id {
                proof {
                    let k2 = choose|k2: int|
                        0 <= k2 < self.spec_modules().len()
                            && (#[trigger] self.spec_modules()[k2]).name@ == module_name@
                            && self.spec_modules()[k2].hw_id == hw_id;
                    if k2 != j as int {
                        assert(!(self.spec_modules()[k2].name@ == self.spec_modules()[
                            j as int].name@ && self.spec_modules()[k2].hw_id == self.spec_modules()[
                            j as int].hw_id));
                    }
                }
                return Some(self.modules[j].suids.as_slice());
            }
            j += 1;
        }
        None
    }

    /// The identifiers of the first recorded module key carrying this name,
    /// whatever its hardware id; the empty result when no key carries it.
    pub fn get_module_sensor_suids_by_name(&self, module_name: &str) -> (r: Option<&[Suid]>)
        ensures
            match r {
                Some(sl) => exists|k: int|
                    0 <= k < self.spec_modules().len()
                        && (#[trigger] self.spec_modules()[k]).name@ == module_name@
                        && sl@ == self.spec_modules()[k].suids@
                        && (forall|j: int|
                            0 <= j < k ==> (#[trigger] self.spec_modules()[j]).name@
                                != module_name@),
                None => forall|k: int|
                    0 <= k < self.spec_modules().len() ==> (#[trigger] self.spec_modules()[
                        k]).name@ != module_name@,
            },
    {
        let key = module_name.to_owned();
        let mut j: usize = 0;
        while j < self.modules.len()
            invariant
                key@ == module_name@,
                0 <= j <= self.spec_modules().len(),
                forall|k: int|
                    0 <= k < j ==> (#[trigger] self.spec_modules()[k]).name@ != module_name@,
            decreases self.spec_modules().len() - j,
        {
            if self.modules[j].name == key {
                return Some(self.modules[j].suids.as_slice());
            }
            j += 1;
        }
        None
    }

    /// All identifiers registered under any module key with this name, in
    /// registration order across the keys.
    pub fn get_all_module_sensor_suids(&self, module_name: &str) -> (r: Vec<Suid>)
        ensures
            r@ == mod_suids_all(self.spec_modules(), module_name@),
    {
        let key = module_name.to_owned();
        let mut all: Vec<Suid> = Vec::new();
        let mut j: usize = 0;
        while j < self.modules.len()
            invariant
                key@ == module_name@,
                0 <= j <= self.spec_modules().len(),
                all@ == mod_suids_all(self.spec_modules().take(j as int), module_name@),
            decreases self.spec_modules().len() - j,
        {
            proof {
                lemma_mod_suids_all_push(
                    self.spec_modules().take(j as int),
                    self.spec_modules()[j as int],
                    module_name@,
                );
                assert(self.spec_modules().take(j as int).push(self.spec_modules()[j as int])
                    =~= self.spec_modules().take(j as int + 1));
            }
            if self.modules[j].name == key {
                let mut t: usize = 0;
                let ghost all0 = all@;
                while t < self.modules[j].suids.len()
                    invariant
                        0 <= t <= self.modules@[j as int].suids@.len(),
                        j < self.modules@.len(),
                        all@ == all0 + self.modules@[j as int].suids@.take(t as int),
                    decreases self.modules@[j as int].suids@.len() - t,
                {
                    all.push(self.modules[j].suids[t]);
                    proof {
                        assert(all@ =~= all0 + self.modules@[j as int].suids@.take(t as int + 1));
                    }
                    t += 1;
                }
                proof {
                    assert(self.modules@[j as int].suids@.take(
                        self.modules@[j as int].suids@.len() as int,
                    ) =~= self.modules@[j as int].suids@);
                }
            }
            j += 1;
        }
        proof {
            assert(self.spec_modules().take(self.spec_modules().len() as int)
                =~= self.spec_modules());
        }
        all
    }

    /// Registers a module's batch of sensors and returns their identifiers,
    /// in batch order; registration never fails. A sensor that arrives with
    /// an identifier keeps it. Each other sensor is assigned the
    /// deterministic hash of the seed derived from the module key and its
    /// batch position; when that hash collides with an identifier already
    /// produced, the well-known sentinel identifier is substituted instead.
    /// The batch extends the authoritative list in order, every returned
    /// identifier resolves to its sensor, and the module key maps to exactly
    /// the returned identifiers.
    #[verifier::rlimit(20)]
    pub fn add_sensors(&mut self, module: &SensorModule, sensors: Vec<Sensor>) -> (suids: Vec<
        Suid,
    >)
        requires
            old(self).wf(),
            forall|i: int| 0 <= i < sensors@.len() ==> (#[trigger] sensors@[i]).wf(),
        ensures
            final(self).wf(),
            suids@.len() == sensors@.len(),
            suids@ == spec_assign_suids(
                old(self).generated(),
                module.name@,
                module.hw_id,
                sensors@,
                0,
            ).0,
            final(self).generated() == spec_assign_suids(
                old(self).generated(),
                module.name@,
                module.hw_id,
                sensors@,
                0,
            ).1,
            final(self).spec_sensors() == old(self).spec_sensors() + assigned_batch(
                sensors@,
                suids@,
            ),
            forall|s: Suid|
                final(self).spec_has_sensor(s) <==> (old(self).spec_has_sensor(s)
                    || suids@.contains(s)),
            forall|i: int|
                0 <= i < suids@.len() && (forall|j: int|
                    i < j < suids@.len() ==> suids@[j] != suids@[i]) ==> final(self).spec_sensor_for(#[trigger] suids@[i]) == Some(
                    assigned_batch(sensors@, suids@)[i],
                ),
            forall|s: Suid|
                old(self).spec_has_sensor(s) && !suids@.contains(s) ==> final(self).spec_sensor_for(s) == old(self).spec_sensor_for(s),
            final(self).spec_module_suids(module.name@, module.hw_id) == Some(suids@),
            forall|n2: Seq<char>, h2: u8|
                !(n2 == module.name@ && h2 == module.hw_id) ==> final(self).spec_module_suids(
                    n2,
                    h2,
                ) == old(self).spec_module_suids(n2, h2),
    {
        let ghost batch0 = sensors@;
        let ghost g0 = self.generator@;
        let ghost name0 = module.name@;
        let mut sensors = sensors;
        let mut suids: Vec<Suid> = Vec::new();

        // Assign an identifier to each sensor of the batch, in order.
        let mut i: usize = 0;
        while i < sensors.len()
            invariant
                0 <= i <= batch0.len(),
                sensors@.len() == batch0.len(),
                suids@.len() == i,
                g0 == old(self).generator@,
                name0 == module.name@,
                suids@ == spec_assign_suids(g0, name0, module.hw_id, batch0.take(i as int), 0).0,
                self.generator@ == spec_assign_suids(
                    g0,
                    name0,
                    module.hw_id,
                    batch0.take(i as int),
                    0,
                ).1,
                forall|j: int|
                    0 <= j < i ==> (#[trigger] sensors@[j]).suid == Some(suids@[j])
                        && sensors@[j].attrs == batch0[j].attrs,
                forall|j: int| i <= j < batch0.len() ==> (#[trigger] sensors@[j]) == batch0[j],
                self.sensors@ == old(self).sensors@,
                self.modules@ == old(self).modules@,
                self.index@ == old(self).index@,
            decreases batch0.len() - i,
        {
            proof {
                lemma_assign_push(
                    g0,
                    name0,
                    module.hw_id,
                    batch0.take(i as int),
                    batch0[i as int],
                    0,
                );
                assert(batch0.take(i as int).push(batch0[i as int]) =~= batch0.take(i as int + 1));
            }
            let suid: Suid = match sensors[i].suid {
                Some(s) => s,
                None => {
                    let seed = module_seed_string(module.name, module.hw_id, i);
                    match self.generator.generate(seed.as_str()) {
                        Ok(s) => s,
                        Err(_) => generate_fixed("0xdeadbeef"),
                    }
                },
            };
            proof {
                assert("0xdeadbeef"@ == fallback_seed());
            }
            let e = &mut sensors[i];
            e.suid = Some(suid);
            suids.push(suid);
            i += 1;
        }
        proof {
            assert(batch0.take(batch0.len() as int) =~= batch0);
        }

        // Extend the authoritative list by the assigned batch.
        let start_len = self.sensors.len();
        let ghost start = self.sensors@.len() as int;
        self.sensors.append(&mut sensors);
        proof {
            assert(self.sensors@ =~= old(self).sensors@ + assigned_batch(batch0, suids@));
        }

        // Record each assigned identifier's storage slot.
        let ghost ix0 = self.index@;
        let ghost su = suids@;
        let ghost sens1 = self.sensors@;
        proof {
            assert(self.sensors.len() == sens1.len());
            assert(index_wf(ix0));
        }
        index_record_batch(&mut self.index, &suids, start_len);
        proof {
            assert(old(self).spec_index() == ix0);
            assert(old(self).spec_sensors() == old(self).sensors@);
            assert forall|k: int|
                0 <= k < self.index@.len() implies (#[trigger] self.index@[k]).1 < sens1.len()
                && sens1[self.index@[k].1 as int].suid == Some(self.index@[k].0) by {
                assert(entry_from(self.index@[k], ix0, su, start_len, su.len() as int));
                if exists|k0: int| 0 <= k0 < ix0.len() && self.index@[k] == (#[trigger] ix0[k0]) {
                    let k0 = choose|k0: int|
                        0 <= k0 < ix0.len() && self.index@[k] == (#[trigger] ix0[k0]);
                    assert(old(self).spec_sensors()[ix0[k0].1 as int].suid == Some(ix0[k0].0));
                    assert(sens1[self.index@[k].1 as int] == old(self).sensors@[ix0[k0].1 as int]);
                } else {
                    let j = choose|j: int|
                        0 <= j < su.len() && self.index@[k] == (su[j], (start_len + j) as usize);
                    assert(sens1[start + j] == assigned_batch(batch0, su)[j]);
                }
            }
        }
        // Record the batch under its module key.
        let stored = vstd::slice::slice_to_vec(suids.as_slice());
        mod_upsert(&mut self.modules, module.name, module.hw_id, stored);
        proof {
            assert forall|m: int, tt: int|
                0 <= m < self.modules@.len() && 0 <= tt < self.modules@[m].suids@.len() implies
                index_has(self.index@, #[trigger] self.modules@[m].suids@[tt]) by {
                if (exists|k0: int|
                    0 <= k0 < old(self).modules@.len() && (#[trigger] self.modules@[m]) == old(self).modules@[k0]) {
                    let k0 = choose|k0: int|
                        0 <= k0 < old(self).modules@.len() && (#[trigger] self.modules@[m]) == old(self).modules@[k0];
                    assert(old(self).spec_modules() == old(self).modules@);
                    assert(index_has(
                        old(self).spec_index(),
                        old(self).spec_modules()[k0].suids@[tt],
                    ));
                } else {
                    assert(self.modules@[m].suids@ == su);
                    assert(su.contains(su[tt]));
                }
            }
            assert forall|s: Suid|
                old(self).spec_has_sensor(s) && !suids@.contains(s) implies self.spec_sensor_for(s)
                == old(self).spec_sensor_for(s) by {
                assert(index_slot(self.index@, s) == index_slot(old(self).index@, s));
                let w = choose|w: int|
                    0 <= w < old(self).index@.len() && (#[trigger] old(self).index@[w]).0 == s;
            }
            assert forall|i2: int|
                0 <= i2 < suids@.len() && (forall|j: int|
                    i2 < j < suids@.len() ==> suids@[j] != suids@[i2]) implies self.spec_sensor_for(
                #[trigger] suids@[i2],
            ) == Some(assigned_batch(batch0, suids@)[i2]) by {
                assert(index_has(self.index@, su[i2]) && index_slot(self.index@, su[i2]) as int
                    == start + i2);
            }
        }
        suids
    }

    /// The sensors registered under the module key (name, hardware id), in
    /// registration order; empty when the key is unknown.
    pub fn get_module_sensors(&self, module_name: &str, hw_id: u8) -> (r: Vec<&Sensor>)
        requires
            self.wf(),
        ensures
            match self.spec_module_suids(module_name@, hw_id) {
                Some(sl) => r@.len() == sl.len() && (forall|i: int|
                    0 <= i < sl.len() ==> *(#[trigger] r@[i]) == self.spec_sensor_for(sl[i])->0),
                None => r@.len() == 0,
            },
    {
        let mut out: Vec<&Sensor> = Vec::new();
        match self.get_module_sensor_suids(module_name, hw_id) {
            Some(sl) => {
                let ghost slv = sl@;
                proof {
                    let k = choose|k: int|
                        0 <= k < self.spec_modules().len()
                            && (#[trigger] self.spec_modules()[k]).name@ == module_name@
                            && self.spec_modules()[k].hw_id == hw_id;
                    assert(slv == self.spec_modules()[k].suids@);
                }
                let mut t: usize = 0;
                while t < sl.len()
                    invariant
                        self.wf(),
                        0 <= t <= slv.len(),
                        sl@ == slv,
                        out@.len() == t,
                        forall|i: int|
                            0 <= i < t ==> *(#[trigger] out@[i]) == self.spec_sensor_for(
                                slv[i],
                            )->0,
                        exists|k: int|
                            0 <= k < self.spec_modules().len() && slv
                                == (#[trigger] self.spec_modules()[k]).suids@,
                    decreases slv.len() - t,
                {
                    proof {
                        let k = choose|k: int|
                            0 <= k < self.spec_modules().len() && slv
                                == (#[trigger] self.spec_modules()[k]).suids@;
                        assert(index_has(
                            self.spec_index(),
                            self.spec_modules()[k].suids@[t as int],
                        ));
                    }
                    match self.find_slot(&sl[t]) {
                        Some(slot) => {
                            out.push(&self.sensors[slot]);
                        },
                        None => {
                            proof {
                                assert(false);
                            }
                        },
                    }
                    t += 1;
                }
            },
            None => {},
        }
        out
    }

    /// All sensors registered under any module key with this name, in
    /// registration order across the keys; empty when no key carries the
    /// name.
    pub fn get_all_module_sensors(&self, module_name: &str) -> (r: Vec<&Sensor>)
        requires
            self.wf(),
        ensures
            r@.len() == mod_suids_all(self.spec_modules(), module_name@).len(),
            forall|i: int|
                0 <= i < r@.len() ==> *(#[trigger] r@[i]) == self.spec_sensor_for(
                    mod_suids_all(self.spec_modules(), module_name@)[i],
                )->0,
    {
        let suids = self.get_all_module_sensor_suids(module_name);
        let ghost slv = suids@;
        proof {
            lemma_mod_suids_all_from_entries(self.spec_modules(), module_name@);
            assert forall|i: int| 0 <= i < slv.len() implies suid_from_entries(
                self.spec_modules(),
                #[trigger] slv[i],
            ) by {
                assert(slv[i] == mod_suids_all(self.spec_modules(), module_name@)[i]);
            }
        }
        let mut out: Vec<&Sensor> = Vec::new();
        let mut t: usize = 0;
        while t < suids.len()
            invariant
                self.wf(),
                0 <= t <= slv.len(),
                suids@ == slv,
                slv == mod_suids_all(self.spec_modules(), module_name@),
                out@.len() == t,
                forall|i: int|
                    0 <= i < t ==> *(#[trigger] out@[i]) == self.spec_sensor_for(slv[i])->0,
                forall|i: int|
                    0 <= i < slv.len() ==> suid_from_entries(
                        self.spec_modules(),
                        #[trigger] slv[i],
                    ),
            decreases slv.len() - t,
        {
            proof {
                assert(suid_from_entries(self.spec_modules(), slv[t as int]));
                let (k, t2): (int, int) = choose|k: int, t2: int|
                    0 <= k < self.spec_modules().len() && 0 <= t2
                        < self.spec_modules()[k].suids@.len() && slv[t as int] == (
                    #[trigger] self.spec_modules()[k].suids@[t2]);
                assert(index_has(self.spec_index(), self.spec_modules()[k].suids@[t2]));
                assert(index_has(self.spec_index(), slv[t as int]));
            }
            match self.find_slot(&suids[t]) {
                Some(slot) => {
                    out.push(&self.sensors[slot]);
                },
                None => {
                    proof {
                        assert(false);
                    }
                },
            }
            t += 1;
        }
        out
    }

    /// The sensors registered under every module key with this name, however
    /// many hardware ids share it; empty when no key carries the name.
    pub fn get_module_sensors_by_name(&self, module_name: &str) -> (r: Vec<&Sensor>)
        requires
            self.wf(),
        ensures
            r@.len() == mod_suids_all(self.spec_modules(), module_name@).len(),
            forall|i: int|
                0 <= i < r@.len() ==> *(#[trigger] r@[i]) == self.spec_sensor_for(
                    mod_suids_all(self.spec_modules(), module_name@)[i],
                )->0,
    {
        self.get_all_module_sensors(module_name)
    }

    /// Looks the sensor up and upserts the attribute in one step; does
    /// nothing (and does not fail) when the identifier is unknown.
    pub fn update_sensor_attr(&mut self, suid: &Suid, attr: SensorAttr)
        requires
            old(self).wf(),
        ensures
            final(self).wf(),
            !old(self).spec_has_sensor(*suid) ==> *final(self) == *old(self),
            old(self).spec_has_sensor(*suid) ==> ({
                let slot = index_slot(old(self).spec_index(), *suid) as int;
                let snew = final(self).spec_sensors()[slot];
                &&& final(self).spec_sensors() == old(self).spec_sensors().update(slot, snew)
                &&& snew.suid == old(self).spec_sensors()[slot].suid
                &&& snew.attrs@ == attr_upsert(old(self).spec_sensors()[slot].attrs@, attr)
            }),
            final(self).spec_index() == old(self).spec_index(),
            final(self).spec_modules() == old(self).spec_modules(),
            final(self).generated() == old(self).generated(),
    {
        match self.find_slot(suid) {
            Some(slot) => {
                let sensor = &mut self.sensors[slot];
                sensor.set_attr(attr);
            },
            None => {},
        }
    }
}

/// Shared-state visibility: a write through the manager is seen by the next
/// read through the manager. When `post` is the manager state
/// `update_sensor_attr(id, attr)` leaves behind (its postcondition is this
/// lemma's hypothesis), the sensor that `id` resolves to in `post` holds
/// `attr` in `attr`'s slot, and every other slot of that sensor is as it was.
pub proof fn lemma_write_then_read_visible(
    pre: SensorManager,
    post: SensorManager,
    id: Suid,
    attr: SensorAttr,
)
    requires
        pre.wf(),
        pre.spec_has_sensor(id),
        post.spec_index() == pre.spec_index(),
        ({
            let slot = index_slot(pre.spec_index(), id) as int;
            let snew = post.spec_sensors()[slot];
            &&& post.spec_sensors() == pre.spec_sensors().update(slot, snew)
            &&& snew.attrs@ == attr_upsert(pre.spec_sensors()[slot].attrs@, attr)
        }),
    ensures
        post.spec_has_sensor(id),
        post.spec_sensor_for(id) is Some,
        attr_lookup(post.spec_sensor_for(id)->0.attrs@, attr.spec_id()) == Some(attr),
        forall|other: crate::attr::SnsStdSensorAttrId|
            other != attr.spec_id() ==> #[trigger] attr_lookup(
                post.spec_sensor_for(id)->0.attrs@,
                other,
            ) == attr_lookup(pre.spec_sensor_for(id)->0.attrs@, other),
{
    let slot = index_slot(pre.spec_index(), id) as int;
    let w = choose|w: int|
        0 <= w < pre.spec_index().len() && (#[trigger] pre.spec_index()[w]).0 == id;
    assert(0 <= slot < pre.spec_sensors().len());
    assert forall|other: crate::attr::SnsStdSensorAttrId|
        other != attr.spec_id() implies #[trigger] attr_lookup(
        post.spec_sensor_for(id)->0.attrs@,
        other,
    ) == attr_lookup(pre.spec_sensor_for(id)->0.attrs@, other) by {
        crate::attr::lemma_attr_lookup_after_upsert(pre.spec_sensors()[slot].attrs@, attr, other);
    }
    crate::attr::lemma_attr_lookup_after_upsert(
        pre.spec_sensors()[slot].attrs@,
        attr,
        attr.spec_id(),
    );
}

} // verus!
