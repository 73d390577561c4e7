use vstd::prelude::*;

verus! {

/// One registered subscriber: the unique subscription id handed back to
/// the caller, and the host's callback token. The host keeps the actual
/// callback closure and maps tokens back to it at notification time; the
/// registries only decide who is notified.
#[derive(Clone, Copy, Debug, PartialEq, Eq, Structural)]
pub struct Subscriber {
    pub id: u128,
    pub token: u64,
}

/// Whether some subscriber in `s` carries the id.
pub open spec fn has_id(s: Seq<Subscriber>, id: u128) -> bool {
    exists|i: int| 0 <= i < s.len() && s[i].id == id
}

/// The sequence with every subscriber carrying `id` taken out, order of
/// the rest kept.
pub open spec fn remove_id(s: Seq<Subscriber>, id: u128) -> Seq<Subscriber>
    decreases s.len(),
{
    if s.len() == 0 {
        Seq::empty()
    } else if s[0].id == id {
        remove_id(s.drop_first(), id)
    } else {
        seq![s[0]] + remove_id(s.drop_first(), id)
    }
}

/// No two subscribers share an id.
pub open spec fn distinct_ids(s: Seq<Subscriber>) -> bool {
    forall|i: int, j: int| 0 <= i < j < s.len() ==> s[i].id != s[j].id
}

/// The callback tokens of the subscribers, in registry order.
pub open spec fn tokens_of(s: Seq<Subscriber>) -> Seq<u64> {
    s.map_values(|x: Subscriber| x.token)
}

/// Removing an id that no subscriber carries changes nothing.
pub proof fn lemma_remove_id_absent(s: Seq<Subscriber>, id: u128)
    requires
        !has_id(s, id),
    ensures
        remove_id(s, id) == s,
    decreases s.len(),
{
    if s.len() == 0 {
        assert(remove_id(s, id) =~= s);
    } else {
        assert(s[0].id != id);
        assert(!has_id(s.drop_first(), id)) by {
            if has_id(s.drop_first(), id) {
                let i = choose|i: int|
                    0 <= i < s.drop_first().len() && s.drop_first()[i].id == id;
                assert(s[i + 1].id == id);
            }
        }
        lemma_remove_id_absent(s.drop_first(), id);
        assert(seq![s[0]] + s.drop_first() =~= s);
    }
}

/// No subscriber of the removal's result carries the removed id.
pub proof fn lemma_remove_id_gone(s: Seq<Subscriber>, id: u128)
    ensures
        !has_id(remove_id(s, id), id),
    decreases s.len(),
{
    if s.len() == 0 {
    } else {
        let d = s.drop_first();
        lemma_remove_id_gone(d, id);
        if s[0].id == id {
        } else {
            let r = remove_id(s, id);
            let rd = remove_id(d, id);
            assert(!has_id(r, id)) by {
                if has_id(r, id) {
                    let k = choose|k: int| 0 <= k < r.len() && r[k].id == id;
                    if k == 0 {
                        assert(r[0] == s[0]);
                    } else {
                        assert(r[k] == rd[k - 1]);
                        assert(has_id(rd, id));
                    }
                }
            }
        }
    }
}

/// Every subscriber of the removal's result already stood in the original
/// sequence (removal invents nothing).
pub proof fn lemma_remove_id_membership(s: Seq<Subscriber>, id: u128)
    ensures
        forall|k: int|
            0 <= k < remove_id(s, id).len() ==> exists|j: int|
                0 <= j < s.len() && s[j] == #[trigger] remove_id(s, id)[k],
    decreases s.len(),
{
    let r = remove_id(s, id);
    if s.len() == 0 {
    } else {
        let d = s.drop_first();
        let rd = remove_id(d, id);
        lemma_remove_id_membership(d, id);
        if s[0].id == id {
            assert forall|k: int| 0 <= k < r.len() implies exists|j: int|
                0 <= j < s.len() && s[j] == #[trigger] r[k] by {
                let j = choose|j: int| 0 <= j < d.len() && d[j] == rd[k];
                assert(s[j + 1] == r[k]);
            }
        } else {
            assert forall|k: int| 0 <= k < r.len() implies exists|j: int|
                0 <= j < s.len() && s[j] == #[trigger] r[k] by {
                if k == 0 {
                    assert(r[0] == s[0]);
                } else {
                    assert(r[k] == rd[k - 1]);
                    let j = choose|j: int| 0 <= j < d.len() && d[j] == rd[k - 1];
                    assert(s[j + 1] == r[k]);
                }
            }
        }
    }
}

/// Removal keeps ids distinct.
pub proof fn lemma_remove_id_distinct(s: Seq<Subscriber>, id: u128)
    requires
        distinct_ids(s),
    ensures
        distinct_ids(remove_id(s, id)),
    decreases s.len(),
{
    let r = remove_id(s, id);
    if s.len() == 0 {
    } else {
        let d = s.drop_first();
        let rd = remove_id(d, id);
        assert(distinct_ids(d)) by {
            assert forall|i: int, j: int| 0 <= i < j < d.len() implies d[i].id != d[j].id by {
                assert(s[i + 1].id != s[j + 1].id);
            }
        }
        lemma_remove_id_distinct(d, id);
        lemma_remove_id_membership(d, id);
        if s[0].id == id {
        } else {
            assert forall|i: int, j: int| 0 <= i < j < r.len() implies r[i].id != r[j].id by {
                if i == 0 {
                    assert(r[0] == s[0]);
                    assert(r[j] == rd[j - 1]);
                    let w = choose|w: int| 0 <= w < d.len() && d[w] == rd[j - 1];
                    assert(s[w + 1] == rd[j - 1]);
                    assert(s[0].id != s[w + 1].id);
                } else {
                    assert(r[i] == rd[i - 1]);
                    assert(r[j] == rd[j - 1]);
                    assert(rd[i - 1].id != rd[j - 1].id);
                }
            }
        }
    }
}

/// Removal distributes over concatenation.
pub proof fn lemma_remove_id_concat(a: Seq<Subscriber>, b: Seq<Subscriber>, id: u128)
    ensures
        remove_id(a + b, id) == remove_id(a, id) + remove_id(b, id),
    decreases a.len(),
{
    if a.len() == 0 {
        assert(a + b =~= b);
        assert(remove_id(a, id) =~= Seq::<Subscriber>::empty());
        assert(remove_id(a, id) + remove_id(b, id) =~= remove_id(b, id));
    } else {
        assert((a + b).len() > 0);
        assert((a + b)[0] == a[0]);
        assert((a + b).drop_first() =~= a.drop_first() + b);
        lemma_remove_id_concat(a.drop_first(), b, id);
        if a[0].id == id {
        } else {
            assert(seq![a[0]] + (remove_id(a.drop_first(), id) + remove_id(b, id)) =~= (seq![
                a[0],
            ] + remove_id(a.drop_first(), id)) + remove_id(b, id));
        }
    }
}

/// Removal on a one-subscriber sequence.
pub proof fn lemma_remove_id_singleton(x: Subscriber, id: u128)
    ensures
        remove_id(seq![x], id) == if x.id == id {
            Seq::<Subscriber>::empty()
        } else {
            seq![x]
        },
{
    let d = seq![x].drop_first();
    assert(d =~= Seq::<Subscriber>::empty());
    assert(remove_id(d, id) == Seq::<Subscriber>::empty());
    assert(seq![x].len() == 1 && seq![x][0] == x);
    if x.id == id {
        assert(remove_id(seq![x], id) == remove_id(d, id));
    } else {
        assert(remove_id(seq![x], id) == seq![x] + remove_id(d, id));
        assert(seq![x] + Seq::<Subscriber>::empty() =~= seq![x]);
    }
}

/// Removal commutes with appending one subscriber.
pub proof fn lemma_remove_id_push(s: Seq<Subscriber>, x: Subscriber, id: u128)
    ensures
        remove_id(s.push(x), id) == remove_id(s, id) + (if x.id == id {
            Seq::<Subscriber>::empty()
        } else {
            seq![x]
        }),
{
    assert(s.push(x) =~= s + seq![x]);
    lemma_remove_id_concat(s, seq![x], id);
    lemma_remove_id_singleton(x, id);
}

/// Unsubscribing twice removes no more than unsubscribing once: after the
/// first removal the id is gone, so the second removal is a no-op.
pub proof fn lemma_remove_id_twice(s: Seq<Subscriber>, id: u128)
    ensures
        remove_id(remove_id(s, id), id) == remove_id(s, id),
{
    lemma_remove_id_gone(s, id);
    lemma_remove_id_absent(remove_id(s, id), id);
}

/// Appending a subscriber with a fresh id keeps ids distinct.
pub proof fn lemma_distinct_push(s: Seq<Subscriber>, x: Subscriber)
    requires
        distinct_ids(s),
        !has_id(s, x.id),
    ensures
        distinct_ids(s.push(x)),
{
    let t = s.push(x);
    assert forall|i: int, j: int| 0 <= i < j < t.len() implies t[i].id != t[j].id by {
        if j == s.len() {
            if t[i].id == x.id {
                assert(s[i].id == x.id);
                assert(has_id(s, x.id));
            }
        } else {
            assert(s[i].id != s[j].id);
        }
    }
}

/// Builds the subscriber list without the given id.
fn filtered_without(subs: &Vec<Subscriber>, id: u128) -> (out: Vec<Subscriber>)
    ensures
        out@ == remove_id(subs@, id),
{
    let mut out: Vec<Subscriber> = Vec::new();
    proof {
        assert(subs@.take(0) =~= Seq::<Subscriber>::empty());
        assert(out@ =~= remove_id(subs@.take(0), id));
    }
    let mut i: usize = 0;
    while i < subs.len()
        invariant
            i <= subs@.len(),
            out@ == remove_id(subs@.take(i as int), id),
        decreases subs@.len() - i,
    {
        proof {
            assert(subs@.take(i as int + 1) =~= subs@.take(i as int).push(subs@[i as int]));
            lemma_remove_id_push(subs@.take(i as int), subs@[i as int], id);
        }
        if subs[i].id != id {
            out.push(subs[i]);
            proof {
                assert(remove_id(subs@.take(i as int), id) + seq![subs@[i as int]] =~= remove_id(
                    subs@.take(i as int),
                    id,
                ).push(subs@[i as int]));
            }
        } else {
            proof {
                assert(remove_id(subs@.take(i as int), id) + Seq::<Subscriber>::empty()
                    =~= remove_id(subs@.take(i as int), id));
            }
        }
        i += 1;
    }
    proof {
        assert(subs@.take(subs@.len() as int) =~= subs@);
    }
    out
}

/// Collects the callback tokens of a subscriber list, in order.
fn collect_tokens(subs: &Vec<Subscriber>) -> (out: Vec<u64>)
    ensures
        out@ == tokens_of(subs@),
{
    let mut out: Vec<u64> = Vec::new();
    proof {
        assert(out@ =~= tokens_of(subs@.take(0)));
    }
    let mut i: usize = 0;
    while i < subs.len()
        invariant
            i <= subs@.len(),
            out@ == tokens_of(subs@.take(i as int)),
        decreases subs@.len() - i,
    {
        out.push(subs[i].token);
        proof {
            assert(tokens_of(subs@.take(i as int + 1)) =~= tokens_of(subs@.take(i as int)).push(
                subs@[i as int].token,
            ));
        }
        i += 1;
    }
    proof {
        assert(subs@.take(subs@.len() as int) =~= subs@);
    }
    out
}

/// Registry of subscribers to "the set of audio-capable processes
/// changed". The event has a single, global source: one operating-system
/// listener is installed before the first subscription and — by design —
/// never removed afterwards, so unsubscription only forgets the callback.
#[derive(Debug)]
pub struct ListRegistry {
    listener_installed: bool,
    subs: Vec<Subscriber>,
}

impl ListRegistry {
    /// Whether the process-wide list-changed listener has been installed.
    pub closed spec fn installed(self) -> bool {
        self.listener_installed
    }

    /// The registered subscribers, in subscription order.
    pub closed spec fn subs_seq(self) -> Seq<Subscriber> {
        self.subs@
    }

    /// Ids are unique, and nobody is subscribed before the listener exists.
    pub open spec fn wf(self) -> bool {
        &&& distinct_ids(self.subs_seq())
        &&& self.subs_seq().len() > 0 ==> self.installed()
    }

    pub open spec fn subscriber_count(self) -> nat {
        self.subs_seq().len()
    }

    /// Live listener bindings for the (single, global) list-changed source.
    pub open spec fn live_bindings(self) -> nat {
        if self.installed() {
            1
        } else {
            0
        }
    }

    pub fn new() -> (r: Self)
        ensures
            r.wf(),
            !r.installed(),
            r.subs_seq() == Seq::<Subscriber>::empty(),
    {
        let r = ListRegistry { listener_installed: false, subs: Vec::new() };
        proof {
            assert(r.subs_seq() =~= Seq::<Subscriber>::empty());
        }
        r
    }

    /// Whether a subscription must first install the operating-system
    /// listener (true exactly until the first subscription commits).
    pub fn needs_listener(&self) -> (r: bool)
        ensures
            r == !self.installed(),
    {
        !self.listener_installed
    }

    /// Records that the host installed the list-changed listener.
    pub fn mark_listener_installed(&mut self)
        requires
            old(self).wf(),
            !old(self).installed(),
        ensures
            final (self).wf(),
            final (self).installed(),
            final (self).subs_seq() == old(self).subs_seq(),
    {
        self.listener_installed = true;
    }

    /// Registers a subscriber under the given id. An id already in use is
    /// replaced (the registry keeps at most one subscriber per id).
    pub fn subscribe(&mut self, id: u128, token: u64)
        requires
            old(self).wf(),
            old(self).installed(),
        ensures
            final (self).wf(),
            final (self).installed(),
            final (self).subs_seq() == remove_id(old(self).subs_seq(), id).push(
                Subscriber { id, token },
            ),
    {
        let mut new_subs = filtered_without(&self.subs, id);
        new_subs.push(Subscriber { id, token });
        proof {
            lemma_remove_id_distinct(self.subs@, id);
            lemma_remove_id_gone(self.subs@, id);
            lemma_distinct_push(remove_id(self.subs@, id), Subscriber { id, token });
        }
        self.subs = new_subs;
    }

    /// Forgets the subscriber with the given id, if any. The global
    /// listener stays installed either way; removing an id that is not
    /// registered changes nothing.
    pub fn unsubscribe(&mut self, id: u128)
        requires
            old(self).wf(),
        ensures
            final (self).wf(),
            final (self).installed() == old(self).installed(),
            final (self).subs_seq() == remove_id(old(self).subs_seq(), id),
            !has_id(old(self).subs_seq(), id) ==> final (self).subs_seq() == old(
                self,
            ).subs_seq(),
    {
        let new_subs = filtered_without(&self.subs, id);
        proof {
            lemma_remove_id_distinct(self.subs@, id);
            if !has_id(self.subs@, id) {
                lemma_remove_id_absent(self.subs@, id);
            }
        }
        self.subs = new_subs;
    }

    /// The callback tokens to invoke on one firing of the list-changed
    /// event, one per registered subscriber, in registry order.
    pub fn notification_tokens(&self) -> (r: Vec<u64>)
        ensures
            r@ == tokens_of(self.subs_seq()),
    {
        collect_tokens(&self.subs)
    }

    pub fn is_listener_installed(&self) -> (r: bool)
        ensures
            r == self.installed(),
    {
        self.listener_installed
    }

    pub fn subscriber_total(&self) -> (r: usize)
        ensures
            r == self.subscriber_count(),
    {
        self.subs.len()
    }
}

/// At most one operating-system listener ever exists for the list-changed
/// event, and none before anyone has subscribed: while a subscriber is
/// registered, the listener is installed. (The converse does not hold by
/// design: the global listener outlives its last subscriber and is never
/// removed, unlike the per-process bindings of [`StateRegistry`].)
pub proof fn lemma_list_listener_at_most_one(reg: ListRegistry)
    requires
        reg.wf(),
    ensures
        reg.live_bindings() <= 1,
        reg.subscriber_count() > 0 ==> reg.live_bindings() == 1,
{
}

/// One key of the state-changed registry: the process handle, the live
/// operating-system listener binding installed for it, and its subscribers.
#[derive(Debug)]
pub struct StateEntry {
    pub handle: u32,
    pub binding: u64,
    pub subs: Vec<Subscriber>,
}

/// Registry of subscribers to "this process's running state changed",
/// keyed by process handle. Exactly one operating-system listener binding
/// is kept per key with at least one subscriber: it is created when the
/// key's subscriber count goes from zero to one and handed back for
/// teardown when it returns to zero.
#[derive(Debug)]
pub struct StateRegistry {
    entries: Vec<StateEntry>,
}

impl StateRegistry {
    /// The keys and their subscribers, one entry per key with a live
    /// listener binding.
    pub closed spec fn entries_seq(self) -> Seq<StateEntry> {
        self.entries@
    }

    /// Whether a listener binding (and so at least one subscriber) exists
    /// for the handle.
    pub open spec fn has_entry(self, h: u32) -> bool {
        exists|i: int| 0 <= i < self.entries_seq().len() && self.entries_seq()[i].handle == h
    }

    /// The position of the handle's entry (meaningful under `wf` when
    /// `has_entry` holds).
    pub open spec fn entry_index(self, h: u32) -> int {
        choose|i: int| 0 <= i < self.entries_seq().len() && self.entries_seq()[i].handle == h
    }

    /// The handle's subscribers, in subscription order; empty when the
    /// handle has no entry.
    pub open spec fn subs_of(self, h: u32) -> Seq<Subscriber> {
        if self.has_entry(h) {
            self.entries_seq()[self.entry_index(h)].subs@
        } else {
            Seq::empty()
        }
    }

    /// The live listener binding recorded for the handle, if any.
    pub open spec fn binding_of(self, h: u32) -> Option<u64> {
        if self.has_entry(h) {
            Some(self.entries_seq()[self.entry_index(h)].binding)
        } else {
            None
        }
    }

    pub open spec fn subscriber_count(self, h: u32) -> nat {
        self.subs_of(h).len()
    }

    /// How many operating-system listener bindings are live for the handle.
    pub open spec fn live_bindings(self, h: u32) -> nat {
        if self.has_entry(h) {
            1
        } else {
            0
        }
    }

    /// Keys are unique, every entry has at least one subscriber, and ids
    /// are unique within a key.
    pub open spec fn wf(self) -> bool {
        &&& forall|i: int, j: int|
            0 <= i < j < self.entries_seq().len() ==> self.entries_seq()[i].handle
                != self.entries_seq()[j].handle
        &&& forall|i: int|
            0 <= i < self.entries_seq().len() ==> (#[trigger] self.entries_seq()[i].subs@).len()
                > 0 && distinct_ids(self.entries_seq()[i].subs@)
    }

    /// The two registries expose the same observable state for the handle:
    /// same presence, same subscribers, same binding.
    pub open spec fn agrees_at(self, other: Self, h: u32) -> bool {
        &&& self.has_entry(h) == other.has_entry(h)
        &&& self.subs_of(h) == other.subs_of(h)
        &&& self.binding_of(h) == other.binding_of(h)
    }

    /// Every handle other than `h` is observably untouched.
    pub open spec fn unchanged_except(self, other: Self, h: u32) -> bool {
        forall|h2: u32| h2 != h ==> #[trigger] self.agrees_at(other, h2)
    }

    pub fn new() -> (r: Self)
        ensures
            r.wf(),
            r.entries_seq() == Seq::<StateEntry>::empty(),
    {
        let r = StateRegistry { entries: Vec::new() };
        proof {
            assert(r.entries_seq() =~= Seq::<StateEntry>::empty());
        }
        r
    }

    /// Scans for the handle's entry.
    fn find_entry(&self, h: u32) -> (r: Option<usize>)
        requires
            self.wf(),
        ensures
            match r {
                Some(i) => self.has_entry(h) && i < self.entries_seq().len()
                    && self.entries_seq()[i as int].handle == h && i as int == self.entry_index(
                    h,
                ),
                None => !self.has_entry(h),
            },
    {
        let mut i: usize = 0;
        while i < self.entries.len()
            invariant
                self.wf(),
                i <= self.entries@.len(),
                forall|k: int| 0 <= k < i ==> self.entries@[k].handle != h,
            decreases self.entries@.len() - i,
        {
            if self.entries[i].handle == h {
                proof {
                    lemma_entry_index_unique(*self, h, i as int);
                }
                return Some(i);
            }
            i += 1;
        }
        proof {
            if self.has_entry(h) {
                let k = choose|k: int|
                    0 <= k < self.entries_seq().len() && self.entries_seq()[k].handle == h;
                assert(false);
            }
        }
        None
    }

    pub fn has_listener(&self, h: u32) -> (r: bool)
        requires
            self.wf(),
        ensures
            r == self.has_entry(h),
            r == (self.live_bindings(h) == 1),
    {
        self.find_entry(h).is_some()
    }

    pub fn subscriber_total(&self, h: u32) -> (r: usize)
        requires
            self.wf(),
        ensures
            r == self.subscriber_count(h),
    {
        match self.find_entry(h) {
            Some(i) => self.entries[i].subs.len(),
            None => 0,
        }
    }

    /// Adds a subscriber to a handle that already has an entry (and so a
    /// live listener binding). Returns false, changing nothing, when the
    /// handle has no entry yet: that first subscription must install a
    /// listener through [`StateRegistry::install`]. An id already in use
    /// under this handle is replaced.
    pub fn subscribe(&mut self, handle: u32, id: u128, token: u64) -> (added: bool)
        requires
            old(self).wf(),
        ensures
            final (self).wf(),
            added == old(self).has_entry(handle),
            old(self).unchanged_except(*final (self), handle),
            old(self).has_entry(handle) ==> {
                &&& final (self).has_entry(handle)
                &&& final (self).binding_of(handle) == old(self).binding_of(handle)
                &&& final (self).subs_of(handle) == remove_id(old(self).subs_of(handle), id).push(
                    Subscriber { id, token },
                )
            },
            !old(self).has_entry(handle) ==> old(self).agrees_at(*final (self), handle),
    {
        match self.find_entry(handle) {
            None => {
                proof {
                    lemma_agrees_refl(*self);
                }
                false
            },
            Some(i) => {
                let ghost prev = *self;
                let mut new_subs = filtered_without(&self.entries[i].subs, id);
                new_subs.push(Subscriber { id, token });
                let binding = self.entries[i].binding;
                self.entries[i] = StateEntry { handle, binding, subs: new_subs };
                proof {
                    lemma_entry_index_unique(prev, handle, i as int);
                    lemma_remove_id_distinct(prev.entries_seq()[i as int].subs@, id);
                    lemma_remove_id_gone(prev.entries_seq()[i as int].subs@, id);
                    lemma_distinct_push(
                        remove_id(prev.entries_seq()[i as int].subs@, id),
                        Subscriber { id, token },
                    );
                    lemma_update_entry(prev, *self, i as int, handle);
                }
                true
            },
        }
    }

    /// Creates the handle's entry with its freshly installed listener
    /// binding and its first subscriber. The caller installs the
    /// operating-system listener first and only then records it here, so
    /// the binding exists exactly as long as the entry does.
    pub fn install(&mut self, handle: u32, binding: u64, id: u128, token: u64)
        requires
            old(self).wf(),
            !old(self).has_entry(handle),
        ensures
            final (self).wf(),
            final (self).has_entry(handle),
            final (self).binding_of(handle) == Some(binding),
            final (self).subs_of(handle) == seq![Subscriber { id, token }],
            old(self).unchanged_except(*final (self), handle),
    {
        let ghost prev = *self;
        let mut subs: Vec<Subscriber> = Vec::new();
        subs.push(Subscriber { id, token });
        proof {
            assert(subs@ =~= seq![Subscriber { id, token }]);
        }
        self.entries.push(StateEntry { handle, binding, subs });
        proof {
            lemma_push_entry(prev, *self, handle);
        }
    }

    /// Removes the subscriber with the given id from the handle's entry.
    /// When that was the last subscriber, the entry is removed and the
    /// listener binding is returned for the host to tear down — map entry
    /// removal strictly precedes the teardown. Removing an id that is not
    /// subscribed (a second unsubscribe included) changes nothing and tears
    /// nothing down.
    pub fn unsubscribe(&mut self, handle: u32, id: u128) -> (torn_down: Option<u64>)
        requires
            old(self).wf(),
        ensures
            final (self).wf(),
            old(self).unchanged_except(*final (self), handle),
            !old(self).has_entry(handle) ==> old(self).agrees_at(*final (self), handle)
                && torn_down is None,
            old(self).has_entry(handle) ==> {
                let remaining = remove_id(old(self).subs_of(handle), id);
                if remaining.len() == 0 {
                    &&& !final (self).has_entry(handle)
                    &&& torn_down == old(self).binding_of(handle)
                } else {
                    &&& final (self).has_entry(handle)
                    &&& final (self).subs_of(handle) == remaining
                    &&& final (self).binding_of(handle) == old(self).binding_of(handle)
                    &&& torn_down is None
                }
            },
            !has_id(old(self).subs_of(handle), id) ==> old(self).agrees_at(*final (self), handle)
                && torn_down is None,
    {
        match self.find_entry(handle) {
            None => {
                proof {
                    lemma_agrees_refl(*self);
                }
                None
            },
            Some(i) => {
                let ghost prev = *self;
                let new_subs = filtered_without(&self.entries[i].subs, id);
                proof {
                    lemma_entry_index_unique(prev, handle, i as int);
                    lemma_remove_id_distinct(prev.entries_seq()[i as int].subs@, id);
                    if !has_id(prev.subs_of(handle), id) {
                        lemma_remove_id_absent(prev.subs_of(handle), id);
                    }
                }
                if new_subs.len() == 0 {
                    let e = self.entries.remove(i);
                    proof {
                        lemma_remove_entry(prev, *self, i as int, handle);
                    }
                    Some(e.binding)
                } else {
                    let binding = self.entries[i].binding;
                    self.entries[i] = StateEntry { handle, binding, subs: new_subs };
                    proof {
                        lemma_update_entry(prev, *self, i as int, handle);
                    }
                    None
                }
            },
        }
    }

    /// The callback tokens to invoke on one firing of the handle's
    /// state-changed event: one per currently registered subscriber, in
    /// registry order, and none when the handle has no subscribers.
    pub fn notification_tokens(&self, handle: u32) -> (r: Vec<u64>)
        requires
            self.wf(),
        ensures
            r@ == tokens_of(self.subs_of(handle)),
    {
        match self.find_entry(handle) {
            None => {
                let r: Vec<u64> = Vec::new();
                proof {
                    assert(r@ =~= tokens_of(Seq::<Subscriber>::empty()));
                }
                r
            },
            Some(i) => collect_tokens(&self.entries[i].subs),
        }
    }
}

/// Under `wf`, any position whose entry carries the handle is the
/// handle's position, and the model projections read that entry.
proof fn lemma_entry_index_unique(reg: StateRegistry, h: u32, i: int)
    requires
        reg.wf(),
        0 <= i < reg.entries_seq().len(),
        reg.entries_seq()[i].handle == h,
    ensures
        reg.has_entry(h),
        reg.entry_index(h) == i,
        reg.subs_of(h) == reg.entries_seq()[i].subs@,
        reg.binding_of(h) == Some(reg.entries_seq()[i].binding),
{
    assert(reg.has_entry(h));
    let j = reg.entry_index(h);
    assert(0 <= j < reg.entries_seq().len() && reg.entries_seq()[j].handle == h);
    if i < j {
        assert(reg.entries_seq()[i].handle != reg.entries_seq()[j].handle);
    } else if j < i {
        assert(reg.entries_seq()[j].handle != reg.entries_seq()[i].handle);
    }
}

/// A registry agrees with itself everywhere.
proof fn lemma_agrees_refl(reg: StateRegistry)
    ensures
        forall|h2: u32| #[trigger] reg.agrees_at(reg, h2),
        reg.unchanged_except(reg, 0),
{
}

/// Replacing the entry at `i` by one with the same handle and a non-empty,
/// distinct subscriber list preserves well-formedness and touches no other
/// handle.
proof fn lemma_update_entry(prev: StateRegistry, cur: StateRegistry, i: int, h: u32)
    requires
        prev.wf(),
        0 <= i < prev.entries_seq().len(),
        prev.entries_seq()[i].handle == h,
        cur.entries_seq() == prev.entries_seq().update(i, cur.entries_seq()[i]),
        cur.entries_seq().len() == prev.entries_seq().len(),
        cur.entries_seq()[i].handle == h,
        cur.entries_seq()[i].subs@.len() > 0,
        distinct_ids(cur.entries_seq()[i].subs@),
    ensures
        cur.wf(),
        cur.has_entry(h),
        cur.subs_of(h) == cur.entries_seq()[i].subs@,
        cur.binding_of(h) == Some(cur.entries_seq()[i].binding),
        prev.unchanged_except(cur, h),
{
    assert forall|a: int, b: int| 0 <= a < b < cur.entries_seq().len() implies cur.entries_seq()[a].handle
        != cur.entries_seq()[b].handle by {
        assert(prev.entries_seq()[a].handle != prev.entries_seq()[b].handle);
    }
    assert forall|a: int| 0 <= a < cur.entries_seq().len() implies (#[trigger] cur.entries_seq()[a].subs@).len()
        > 0 && distinct_ids(cur.entries_seq()[a].subs@) by {
        if a != i {
            assert(cur.entries_seq()[a] == prev.entries_seq()[a]);
            assert(prev.entries_seq()[a].subs@.len() > 0 && distinct_ids(
                prev.entries_seq()[a].subs@,
            ));
        }
    }
    lemma_entry_index_unique(cur, h, i);
    assert forall|h2: u32| h2 != h implies #[trigger] prev.agrees_at(cur, h2) by {
        if prev.has_entry(h2) {
            let k = prev.entry_index(h2);
            assert(0 <= k < prev.entries_seq().len() && prev.entries_seq()[k].handle == h2);
            assert(k != i);
            assert(cur.entries_seq()[k] == prev.entries_seq()[k]);
            lemma_entry_index_unique(prev, h2, k);
            lemma_entry_index_unique(cur, h2, k);
        } else {
            if cur.has_entry(h2) {
                let k = cur.entry_index(h2);
                assert(0 <= k < cur.entries_seq().len() && cur.entries_seq()[k].handle == h2);
                assert(k != i);
                assert(prev.entries_seq()[k].handle == h2);
            }
        }
    }
}

/// Appending an entry for a handle that had none preserves
/// well-formedness and touches no other handle.
proof fn lemma_push_entry(prev: StateRegistry, cur: StateRegistry, h: u32)
    requires
        prev.wf(),
        !prev.has_entry(h),
        cur.entries_seq() == prev.entries_seq().push(
            cur.entries_seq()[prev.entries_seq().len() as int],
        ),
        cur.entries_seq()[prev.entries_seq().len() as int].handle == h,
        cur.entries_seq()[prev.entries_seq().len() as int].subs@.len() > 0,
        distinct_ids(cur.entries_seq()[prev.entries_seq().len() as int].subs@),
    ensures
        cur.wf(),
        cur.has_entry(h),
        cur.subs_of(h) == cur.entries_seq()[prev.entries_seq().len() as int].subs@,
        cur.binding_of(h) == Some(cur.entries_seq()[prev.entries_seq().len() as int].binding),
        prev.unchanged_except(cur, h),
{
    let n = prev.entries_seq().len() as int;
    assert forall|a: int, b: int| 0 <= a < b < cur.entries_seq().len() implies cur.entries_seq()[a].handle
        != cur.entries_seq()[b].handle by {
        if b == n {
            if cur.entries_seq()[a].handle == h {
                assert(prev.entries_seq()[a].handle == h);
                assert(prev.has_entry(h));
            }
        } else {
            assert(prev.entries_seq()[a].handle != prev.entries_seq()[b].handle);
        }
    }
    assert forall|a: int| 0 <= a < cur.entries_seq().len() implies (#[trigger] cur.entries_seq()[a].subs@).len()
        > 0 && distinct_ids(cur.entries_seq()[a].subs@) by {
        if a != n {
            assert(cur.entries_seq()[a] == prev.entries_seq()[a]);
            assert(prev.entries_seq()[a].subs@.len() > 0 && distinct_ids(
                prev.entries_seq()[a].subs@,
            ));
        }
    }
    lemma_entry_index_unique(cur, h, n);
    assert forall|h2: u32| h2 != h implies #[trigger] prev.agrees_at(cur, h2) by {
        if prev.has_entry(h2) {
            let k = prev.entry_index(h2);
            assert(0 <= k < prev.entries_seq().len() && prev.entries_seq()[k].handle == h2);
            assert(cur.entries_seq()[k] == prev.entries_seq()[k]);
            lemma_entry_index_unique(prev, h2, k);
            lemma_entry_index_unique(cur, h2, k);
        } else {
            if cur.has_entry(h2) {
                let k = cur.entry_index(h2);
                assert(0 <= k < cur.entries_seq().len() && cur.entries_seq()[k].handle == h2);
                assert(k != n);
                assert(prev.entries_seq()[k].handle == h2);
            }
        }
    }
}

/// Removing the entry at `i` preserves well-formedness, removes exactly
/// that handle, and touches no other handle.
proof fn lemma_remove_entry(prev: StateRegistry, cur: StateRegistry, i: int, h: u32)
    requires
        prev.wf(),
        0 <= i < prev.entries_seq().len(),
        prev.entries_seq()[i].handle == h,
        cur.entries_seq() == prev.entries_seq().remove(i),
    ensures
        cur.wf(),
        !cur.has_entry(h),
        prev.unchanged_except(cur, h),
{
    prev.entries_seq().remove_ensures(i);
    let n = cur.entries_seq().len();
    assert forall|a: int, b: int| 0 <= a < b < n implies cur.entries_seq()[a].handle
        != cur.entries_seq()[b].handle by {
        let pa: int = if a < i {
            a
        } else {
            a + 1
        };
        let pb: int = if b < i {
            b
        } else {
            b + 1
        };
        assert(cur.entries_seq()[a] == prev.entries_seq()[pa]);
        assert(cur.entries_seq()[b] == prev.entries_seq()[pb]);
        assert(prev.entries_seq()[pa].handle != prev.entries_seq()[pb].handle);
    }
    assert forall|a: int| 0 <= a < n implies (#[trigger] cur.entries_seq()[a].subs@).len() > 0
        && distinct_ids(cur.entries_seq()[a].subs@) by {
        let pa: int = if a < i {
            a
        } else {
            a + 1
        };
        assert(cur.entries_seq()[a] == prev.entries_seq()[pa]);
        assert(prev.entries_seq()[pa].subs@.len() > 0 && distinct_ids(
            prev.entries_seq()[pa].subs@,
        ));
    }
    assert(!cur.has_entry(h)) by {
        if cur.has_entry(h) {
            let k = choose|k: int| 0 <= k < n && cur.entries_seq()[k].handle == h;
            let pk: int = if k < i {
                k
            } else {
                k + 1
            };
            assert(cur.entries_seq()[k] == prev.entries_seq()[pk]);
            assert(pk != i);
            if pk < i {
                assert(prev.entries_seq()[pk].handle != prev.entries_seq()[i].handle);
            } else {
                assert(prev.entries_seq()[i].handle != prev.entries_seq()[pk].handle);
            }
        }
    }
    assert forall|h2: u32| h2 != h implies #[trigger] prev.agrees_at(cur, h2) by {
        if prev.has_entry(h2) {
            let k = prev.entry_index(h2);
            assert(0 <= k < prev.entries_seq().len() && prev.entries_seq()[k].handle == h2);
            assert(k != i);
            let ck: int = if k < i {
                k
            } else {
                k - 1
            };
            assert(cur.entries_seq()[ck] == prev.entries_seq()[k]);
            lemma_entry_index_unique(prev, h2, k);
            lemma_entry_index_unique(cur, h2, ck);
        } else {
            if cur.has_entry(h2) {
                let k = choose|k: int| 0 <= k < n && cur.entries_seq()[k].handle == h2;
                let pk: int = if k < i {
                    k
                } else {
                    k + 1
                };
                assert(prev.entries_seq()[pk].handle == h2);
            }
        }
    }
}

/// For every key, the number of live operating-system listener bindings is
/// zero or one, and it is one exactly when the key has at least one live
/// subscriber. This holds of every well-formed registry state, so it holds
/// after any sequence of subscribe, install and unsubscribe calls, each of
/// which preserves `wf`.
pub proof fn lemma_state_listener_binding_invariant(reg: StateRegistry, handle: u32)
    requires
        reg.wf(),
    ensures
        reg.live_bindings(handle) <= 1,
        reg.live_bindings(handle) == 1 <==> reg.subscriber_count(handle) > 0,
{
    if reg.has_entry(handle) {
        let i = reg.entry_index(handle);
        assert(0 <= i < reg.entries_seq().len() && reg.entries_seq()[i].handle == handle);
        assert(reg.entries_seq()[i].subs@.len() > 0);
    }
}

/// One firing of a key's state-changed event notifies each currently
/// registered subscriber exactly once: the notification list has exactly
/// one slot per subscriber, in registry order, carrying that subscriber's
/// token — nobody is skipped and nobody is notified twice, independent of
/// how many subscribers there are (zero subscribers, zero notifications).
pub proof fn lemma_fanout_exactly_once(reg: StateRegistry, handle: u32)
    requires
        reg.wf(),
    ensures
        tokens_of(reg.subs_of(handle)).len() == reg.subscriber_count(handle),
        forall|k: int|
            0 <= k < reg.subscriber_count(handle) ==> tokens_of(reg.subs_of(handle))[k]
                == reg.subs_of(handle)[k].token,
{
}

} // verus!
