//! The modifier-key store: a shared mapping from modifier name to pressed
//! state, toggled from the remote and read back as a status object.  The
//! store itself is plain state; the actual key press or release is planned
//! here and performed by the unverified shell, which commits the new state
//! only when the native call went through.

use vstd::prelude::*;
use vstd::utf8::encode_utf8;
use crate::bytestr::{bytes_eq, extend, lit};
use crate::keys::{modkey_of_name, modkey_of_name_spec, ModKey};

verus! {

/// The view of one entry.
pub open spec fn entry_view(e: (Vec<u8>, bool)) -> (Seq<u8>, bool) {
    (e.0@, e.1)
}

/// The view of the entry list.
pub open spec fn entries_view(es: Seq<(Vec<u8>, bool)>) -> Seq<(Seq<u8>, bool)> {
    es.map_values(|e: (Vec<u8>, bool)| entry_view(e))
}

/// Lookup of a name among entries with pairwise distinct keys: the first
/// match.
pub open spec fn lookup_state(es: Seq<(Seq<u8>, bool)>, k: Seq<u8>) -> Option<bool>
    decreases es.len(),
{
    if es.len() == 0 {
        Option::None
    } else if es[0].0 == k {
        Option::Some(es[0].1)
    } else {
        lookup_state(es.drop_first(), k)
    }
}

/// The pressed state a name reads as: absent names are unpressed.
pub open spec fn state_of(es: Seq<(Seq<u8>, bool)>, k: Seq<u8>) -> bool {
    lookup_state(es, k) == Option::Some(true)
}

/// The names recorded as pressed, in entry order.
pub open spec fn pressed_of(es: Seq<(Seq<u8>, bool)>) -> Seq<Seq<u8>>
    decreases es.len(),
{
    if es.len() == 0 {
        Seq::empty()
    } else {
        (if es[0].1 {
            seq![es[0].0]
        } else {
            Seq::<Seq<u8>>::empty()
        }) + pressed_of(es.drop_first())
    }
}

/// Entries with key `name` dropped.
pub open spec fn drop_name(es: Seq<(Seq<u8>, bool)>, name: Seq<u8>) -> Seq<(Seq<u8>, bool)>
    decreases es.len(),
{
    if es.len() == 0 {
        Seq::empty()
    } else {
        (if es[0].0 == name {
            Seq::<(Seq<u8>, bool)>::empty()
        } else {
            seq![es[0]]
        }) + drop_name(es.drop_first(), name)
    }
}

/// Pairwise distinct keys.
pub open spec fn distinct_keys(es: Seq<(Seq<u8>, bool)>) -> bool {
    forall|i: int, j: int| 0 <= i < j < es.len() ==> (#[trigger] es[i]).0 != (#[trigger] es[j]).0
}

proof fn lemma_drop_name_lookup(es: Seq<(Seq<u8>, bool)>, name: Seq<u8>, k: Seq<u8>)
    requires
        k != name,
    ensures
        lookup_state(drop_name(es, name), k) == lookup_state(es, k),
    decreases es.len(),
{
    if es.len() > 0 {
        lemma_drop_name_lookup(es.drop_first(), name, k);
        if es[0].0 == name {
            assert(drop_name(es, name) =~= drop_name(es.drop_first(), name));
        } else {
            assert(drop_name(es, name)[0] == es[0]);
            assert(drop_name(es, name).drop_first() =~= drop_name(es.drop_first(), name));
        }
    }
}

proof fn lemma_drop_name_absent(es: Seq<(Seq<u8>, bool)>, name: Seq<u8>)
    ensures
        lookup_state(drop_name(es, name), name) is None,
        forall|i: int|
            0 <= i < drop_name(es, name).len() ==> (#[trigger] drop_name(es, name)[i]).0 != name,
    decreases es.len(),
{
    if es.len() > 0 {
        lemma_drop_name_absent(es.drop_first(), name);
        if es[0].0 == name {
            assert(drop_name(es, name) =~= drop_name(es.drop_first(), name));
        } else {
            assert(drop_name(es, name)[0] == es[0]);
            assert(drop_name(es, name).drop_first() =~= drop_name(es.drop_first(), name));
        }
    }
}

proof fn lemma_lookup_push(es: Seq<(Seq<u8>, bool)>, p: (Seq<u8>, bool), k: Seq<u8>)
    ensures
        lookup_state(es.push(p), k) == (match lookup_state(es, k) {
            Option::Some(v) => Option::Some(v),
            Option::None => if p.0 == k {
                Option::Some(p.1)
            } else {
                Option::<bool>::None
            },
        }),
    decreases es.len(),
{
    if es.len() == 0 {
        assert(es.push(p)[0] == p);
        assert(es.push(p).drop_first() =~= Seq::<(Seq<u8>, bool)>::empty());
        assert(lookup_state(Seq::<(Seq<u8>, bool)>::empty(), k) is None);
    } else {
        assert(es.push(p)[0] == es[0]);
        assert(es.push(p).drop_first() =~= es.drop_first().push(p));
        lemma_lookup_push(es.drop_first(), p, k);
    }
}

proof fn lemma_drop_name_distinct(es: Seq<(Seq<u8>, bool)>, name: Seq<u8>)
    requires
        distinct_keys(es),
    ensures
        distinct_keys(drop_name(es, name)),
    decreases es.len(),
{
    if es.len() > 0 {
        assert(distinct_keys(es.drop_first())) by {
            assert(forall|i: int, j: int|
                0 <= i < j < es.drop_first().len() ==> (#[trigger] es.drop_first()[i]).0 != (
                #[trigger] es.drop_first()[j]).0) by {
                assert(forall|i: int|
                    0 <= i < es.drop_first().len() ==> #[trigger] es.drop_first()[i] == es[i + 1]);
            }
        }
        lemma_drop_name_distinct(es.drop_first(), name);
        if es[0].0 == name {
            assert(drop_name(es, name) =~= drop_name(es.drop_first(), name));
        } else {
            let d = drop_name(es, name);
            assert(d[0] == es[0]);
            assert(d.drop_first() =~= drop_name(es.drop_first(), name));
            assert forall|i: int, j: int| 0 <= i < j < d.len() implies (#[trigger] d[i]).0 != (
            #[trigger] d[j]).0 by {
                if i == 0 {
                    lemma_drop_name_member(es.drop_first(), name, j - 1);
                } else {
                    assert(d[i] == d.drop_first()[i - 1] && d[j] == d.drop_first()[j - 1]);
                }
            }
        }
    }
}

/// Every entry of `drop_name(es, name)` is an entry of `es`.
proof fn lemma_drop_name_member(es: Seq<(Seq<u8>, bool)>, name: Seq<u8>, i: int)
    requires
        0 <= i < drop_name(es, name).len(),
    ensures
        exists|j: int| 0 <= j < es.len() && #[trigger] es[j] == drop_name(es, name)[i],
    decreases es.len(),
{
    if es.len() > 0 {
        if es[0].0 == name {
            assert(drop_name(es, name) =~= drop_name(es.drop_first(), name));
            lemma_drop_name_member(es.drop_first(), name, i);
            let j = choose|j: int|
                0 <= j < es.drop_first().len() && #[trigger] es.drop_first()[j] == drop_name(
                    es.drop_first(),
                    name,
                )[i];
            assert(es[j + 1] == drop_name(es, name)[i]);
        } else {
            assert(drop_name(es, name)[0] == es[0]);
            assert(drop_name(es, name).drop_first() =~= drop_name(es.drop_first(), name));
            if i == 0 {
                assert(es[0] == drop_name(es, name)[0]);
            } else {
                lemma_drop_name_member(es.drop_first(), name, i - 1);
                let j = choose|j: int|
                    0 <= j < es.drop_first().len() && #[trigger] es.drop_first()[j] == drop_name(
                        es.drop_first(),
                        name,
                    )[i - 1];
                assert(es[j + 1] == drop_name(es, name)[i]);
            }
        }
    }
}

/// The modifier-key store.
pub struct ModifierStates {
    entries: Vec<(Vec<u8>, bool)>,
}

impl View for ModifierStates {
    type V = Seq<(Seq<u8>, bool)>;

    closed spec fn view(&self) -> Seq<(Seq<u8>, bool)> {
        entries_view(self.entries@)
    }
}

/// The alias a toggled name also writes: the exact lowercase short names
/// mirror their long forms.
pub open spec fn alias_of(n: Seq<u8>) -> Option<Seq<u8>> {
    if n == encode_utf8("alt"@) {
        Option::Some(encode_utf8("option"@))
    } else if n == encode_utf8("ctrl"@) {
        Option::Some(encode_utf8("control"@))
    } else if n == encode_utf8("cmd"@) {
        Option::Some(encode_utf8("meta"@))
    } else {
        Option::None
    }
}

impl ModifierStates {
    /// Keys are recorded once each.
    pub open spec fn wf(&self) -> bool {
        distinct_keys(self@)
    }

    /// An empty store: every name reads unpressed.
    pub fn new() -> (m: ModifierStates)
        ensures
            m.wf(),
            m@ =~= Seq::<(Seq<u8>, bool)>::empty(),
    {
        let m = ModifierStates { entries: Vec::new() };
        proof {
            assert(m@ =~= Seq::<(Seq<u8>, bool)>::empty());
        }
        m
    }

    /// The pressed state a name reads as.
    pub fn get(&self, name: &[u8]) -> (r: bool)
        ensures
            r == state_of(self@, name@),
    {
        let mut t: usize = 0;
        proof {
            assert(self@.subrange(0, self@.len() as int) =~= self@);
        }
        while t < self.entries.len()
            invariant
                t <= self.entries@.len(),
                self@.len() == self.entries@.len(),
                lookup_state(self@, name@) == lookup_state(
                    self@.subrange(t as int, self@.len() as int),
                    name@,
                ),
            decreases self.entries@.len() - t,
        {
            let ghost suffix = self@.subrange(t as int, self@.len() as int);
            proof {
                assert(suffix[0] == self@[t as int]);
                assert(suffix.drop_first() =~= self@.subrange(t as int + 1, self@.len() as int));
            }
            if bytes_eq(self.entries[t].0.as_slice(), name) {
                return self.entries[t].1;
            }
            t += 1;
        }
        proof {
            assert(self@.subrange(self@.len() as int, self@.len() as int) =~= Seq::<
                (Seq<u8>, bool),
            >::empty());
        }
        false
    }

    /// Record `name` as `v`, leaving every other name as it was.
    fn set_state(&mut self, name: &[u8], v: bool)
        requires
            old(self).wf(),
        ensures
            final(self).wf(),
            forall|k: Seq<u8>| state_of(final(self)@, k) == if k == name@ {
                v
            } else {
                state_of(old(self)@, k)
            },
    {
        let ghost oldv = self@;
        let mut out: Vec<(Vec<u8>, bool)> = Vec::new();
        let mut t: usize = 0;
        proof {
            assert(entries_view(out@) =~= Seq::<(Seq<u8>, bool)>::empty());
            assert(oldv.subrange(0, oldv.len() as int) =~= oldv);
        }
        while t < self.entries.len()
            invariant
                t <= self.entries@.len(),
                oldv == entries_view(self.entries@),
                oldv.len() == self.entries@.len(),
                drop_name(oldv, name@) == entries_view(out@) + drop_name(
                    oldv.subrange(t as int, oldv.len() as int),
                    name@,
                ),
            decreases self.entries@.len() - t,
        {
            let ghost suffix = oldv.subrange(t as int, oldv.len() as int);
            proof {
                assert(suffix[0] == oldv[t as int]);
                assert(suffix.drop_first() =~= oldv.subrange(t as int + 1, oldv.len() as int));
            }
            let ghost outv = entries_view(out@);
            if !bytes_eq(self.entries[t].0.as_slice(), name) {
                let key_copy = vstd::slice::slice_to_vec(self.entries[t].0.as_slice());
                out.push((key_copy, self.entries[t].1));
                proof {
                    assert(entries_view(out@) =~= outv + seq![oldv[t as int]]);
                    assert(outv + drop_name(suffix, name@) =~= (outv + seq![oldv[t as int]])
                        + drop_name(suffix.drop_first(), name@));
                }
            } else {
                proof {
                    assert(drop_name(suffix, name@) =~= drop_name(suffix.drop_first(), name@));
                }
            }
            t += 1;
        }
        proof {
            assert(drop_name(oldv.subrange(oldv.len() as int, oldv.len() as int), name@) =~= Seq::<
                (Seq<u8>, bool),
            >::empty());
            assert(entries_view(out@) =~= drop_name(oldv, name@));
        }
        let name_copy = vstd::slice::slice_to_vec(name);
        let ghost outv = entries_view(out@);
        out.push((name_copy, v));
        self.entries = out;
        proof {
            assert(self@ =~= outv.push((name@, v)));
            lemma_drop_name_absent(oldv, name@);
            lemma_drop_name_distinct(oldv, name@);
            assert forall|k: Seq<u8>| state_of(self@, k) == if k == name@ {
                v
            } else {
                state_of(oldv, k)
            } by {
                lemma_lookup_push(outv, (name@, v), k);
                if k != name@ {
                    lemma_drop_name_lookup(oldv, name@, k);
                }
            }
            assert forall|i: int, j: int| 0 <= i < j < self@.len() implies (
            #[trigger] self@[i]).0 != (#[trigger] self@[j]).0 by {
                if j < self@.len() - 1 {
                    assert(self@[i] == outv[i] && self@[j] == outv[j]);
                } else {
                    if i < self@.len() - 1 {
                        assert(self@[i] == outv[i]);
                        assert(outv[i].0 != name@);
                    }
                }
            }
        }
    }

    /// What toggling a name would do: the modifier key to press or release
    /// and the state it moves to, or the rejection of an unknown name.
    pub fn plan_toggle(&self, name: &[u8]) -> (r: Result<(ModKey, bool), Vec<u8>>)
        ensures
            match r {
                Result::Ok((k, v)) => modkey_of_name_spec(name@) == Option::Some(k) && v
                    == !state_of(self@, name@),
                Result::Err(e) => modkey_of_name_spec(name@) is None && e@ == encode_utf8(
                    "Unknown modifier key: "@,
                ) + name@,
            },
    {
        match modkey_of_name(name) {
            Option::Some(k) => {
                let cur = self.get(name);
                Result::Ok((k, !cur))
            },
            Option::None => {
                let mut e = lit("Unknown modifier key: ");
                extend(&mut e, name);
                Result::Err(e)
            },
        }
    }

    /// Commit a toggle that the native layer performed: the name takes the
    /// new state, and so does its alias where one exists.
    pub fn commit_toggle(&mut self, name: &[u8], new_state: bool)
        requires
            old(self).wf(),
        ensures
            final(self).wf(),
            forall|k: Seq<u8>| state_of(final(self)@, k) == if k == name@ || Option::Some(k)
                == alias_of(name@) {
                new_state
            } else {
                state_of(old(self)@, k)
            },
    {
        self.set_state(name, new_state);
        if bytes_eq(name, lit("alt").as_slice()) {
            self.set_state(lit("option").as_slice(), new_state);
        } else if bytes_eq(name, lit("ctrl").as_slice()) {
            self.set_state(lit("control").as_slice(), new_state);
        } else if bytes_eq(name, lit("cmd").as_slice()) {
            self.set_state(lit("meta").as_slice(), new_state);
        }
    }

    /// The names recorded as pressed, for the shell to release.
    pub fn pressed(&self) -> (r: Vec<Vec<u8>>)
        ensures
            r@.map_values(|k: Vec<u8>| k@) == pressed_of(self@),
    {
        let mut out: Vec<Vec<u8>> = Vec::new();
        let mut t: usize = 0;
        proof {
            assert(self@.subrange(0, self@.len() as int) =~= self@);
            assert(out@.map_values(|k: Vec<u8>| k@) =~= Seq::<Seq<u8>>::empty());
        }
        while t < self.entries.len()
            invariant
                t <= self.entries@.len(),
                self@.len() == self.entries@.len(),
                pressed_of(self@) == out@.map_values(|k: Vec<u8>| k@) + pressed_of(
                    self@.subrange(t as int, self@.len() as int),
                ),
            decreases self.entries@.len() - t,
        {
            let ghost suffix = self@.subrange(t as int, self@.len() as int);
            let ghost outv = out@.map_values(|k: Vec<u8>| k@);
            proof {
                assert(suffix[0] == self@[t as int]);
                assert(suffix.drop_first() =~= self@.subrange(t as int + 1, self@.len() as int));
            }
            if self.entries[t].1 {
                out.push(vstd::slice::slice_to_vec(self.entries[t].0.as_slice()));
                proof {
                    assert(out@.map_values(|k: Vec<u8>| k@) =~= outv + seq![self@[t as int].0]);
                    assert(outv + pressed_of(suffix) =~= (outv + seq![self@[t as int].0])
                        + pressed_of(suffix.drop_first()));
                }
            }
            t += 1;
        }
        proof {
            assert(pressed_of(self@.subrange(self@.len() as int, self@.len() as int)) =~= Seq::<
                Seq<u8>,
            >::empty());
            assert(out@.map_values(|k: Vec<u8>| k@) =~= pressed_of(self@));
        }
        out
    }

    /// Forget every record: all names read unpressed again.
    pub fn clear(&mut self)
        ensures
            final(self).wf(),
            final(self)@ =~= Seq::<(Seq<u8>, bool)>::empty(),
    {
        self.entries = Vec::new();
        proof {
            assert(self@ =~= Seq::<(Seq<u8>, bool)>::empty());
        }
    }
}

/// The message reporting a committed toggle: the name quoted back with the
/// state it moved to.
pub open spec fn toggle_msg(name: Seq<u8>, pressed: bool) -> Seq<u8> {
    encode_utf8("Modifier key '"@) + name + encode_utf8("' toggled to "@) + bool_bytes(pressed)
}

/// Compose the toggle report for a name and its new state.
pub fn toggle_message(name: &[u8], pressed: bool) -> (r: Vec<u8>)
    ensures
        r@ == toggle_msg(name@, pressed),
{
    let mut msg = lit("Modifier key '");
    extend(&mut msg, name);
    let mid = lit("' toggled to ");
    extend(&mut msg, mid.as_slice());
    push_bool(&mut msg, pressed);
    msg
}

/// The message reporting a completed clear.
pub fn cleared_message() -> (r: Vec<u8>)
    ensures
        r@ == encode_utf8("All modifier keys cleared"@),
{
    lit("All modifier keys cleared")
}

/// The wire word for a boolean.
pub open spec fn bool_bytes(b: bool) -> Seq<u8> {
    if b {
        encode_utf8("true"@)
    } else {
        encode_utf8("false"@)
    }
}

/// The status object the store reports: the six conventional names, each
/// with its pressed state.
pub open spec fn states_json_of(es: Seq<(Seq<u8>, bool)>) -> Seq<u8> {
    encode_utf8("{\"cmd\":"@) + bool_bytes(state_of(es, encode_utf8("cmd"@))) + encode_utf8(
        ",\"shift\":"@,
    ) + bool_bytes(state_of(es, encode_utf8("shift"@))) + encode_utf8(",\"alt\":"@) + bool_bytes(
        state_of(es, encode_utf8("alt"@)),
    ) + encode_utf8(",\"option\":"@) + bool_bytes(state_of(es, encode_utf8("option"@)))
        + encode_utf8(",\"ctrl\":"@) + bool_bytes(state_of(es, encode_utf8("ctrl"@))) + encode_utf8(
        ",\"control\":"@,
    ) + bool_bytes(state_of(es, encode_utf8("control"@))) + encode_utf8("}"@)
}

impl ModifierStates {
    /// Render the status object.
    pub fn states_json(&self) -> (r: Vec<u8>)
        ensures
            r@ == states_json_of(self@),
    {
        let mut out = lit("{\"cmd\":");
        push_bool(&mut out, self.get(lit("cmd").as_slice()));
        let part1 = lit(",\"shift\":");
        extend(&mut out, part1.as_slice());
        push_bool(&mut out, self.get(lit("shift").as_slice()));
        let part2 = lit(",\"alt\":");
        extend(&mut out, part2.as_slice());
        push_bool(&mut out, self.get(lit("alt").as_slice()));
        let part3 = lit(",\"option\":");
        extend(&mut out, part3.as_slice());
        push_bool(&mut out, self.get(lit("option").as_slice()));
        let part4 = lit(",\"ctrl\":");
        extend(&mut out, part4.as_slice());
        push_bool(&mut out, self.get(lit("ctrl").as_slice()));
        let part5 = lit(",\"control\":");
        extend(&mut out, part5.as_slice());
        push_bool(&mut out, self.get(lit("control").as_slice()));
        let part6 = lit("}");
        extend(&mut out, part6.as_slice());
        proof {
            assert(out@ =~= states_json_of(self@));
        }
        out
    }
}

/// Append the wire word for a boolean.
fn push_bool(out: &mut Vec<u8>, b: bool)
    ensures
        final(out)@ == old(out)@ + bool_bytes(b),
{
    if b {
        let w = lit("true");
        extend(out, w.as_slice());
    } else {
        let w = lit("false");
        extend(out, w.as_slice());
    }
}

} // verus!
