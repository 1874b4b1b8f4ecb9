//! Experience, leveling, and the deferred event bus that carries both.
//!
//! Experience-gain events accumulate onto an entity's experience counter;
//! the derived level is `ceil(log2(experience))`, clamped to 0 when the
//! experience is 0 or 1.  When the derived level differs from the stored
//! one, a level-up event is raised for consumers such as the tower stat
//! recomputation.
//!
//! The bus queues are drained and cleared at one fixed point per tick: an
//! event enqueued in a tick is visible to every reader of that tick, and the
//! end-of-tick [`ExperienceBus::update`] clears it so a reader never
//! processes it twice.

use vstd::prelude::*;

use vstd::arithmetic::power2::{lemma2_to64, lemma2_to64_rest, lemma_pow2_strictly_increases, lemma_pow2_unfold, pow2};

verus! {

/// The level an experience total earns: 0 for totals of 0 or 1, and the
/// smallest `l` with `pow2(l) >= e` otherwise — that is,
/// `ceil(log2(e))`.
pub open spec fn level_of(e: nat) -> nat
    decreases e,
{
    if e <= 1 {
        0
    } else {
        1 + level_of((e + 1) / 2)
    }
}

/// `level_of` is exactly the ceiling of the base-2 logarithm: `pow2` of it
/// reaches the experience total, and `pow2` of anything smaller does not.
pub proof fn lemma_level_of_bounds(e: nat)
    requires
        1 <= e,
    ensures
        pow2(level_of(e)) >= e,
        level_of(e) > 0 ==> pow2((level_of(e) - 1) as nat) < e,
    decreases e,
{
    lemma2_to64();
    if e >= 2 {
        let m = ((e + 1) / 2) as nat;
        vstd::arithmetic::div_mod::lemma_fundamental_div_mod(e as int + 1, 2);
        assert(1 <= m < e);
        lemma_level_of_bounds(m);
        let lm = level_of(m);
        lemma_pow2_unfold((lm + 1) as nat);
        assert(2 * m >= e);
        if lm > 0 {
            lemma_pow2_unfold(lm);
        }
    }
}

/// No representable experience total earns a level past 64.
pub proof fn lemma_level_of_le_64(e: nat)
    requires
        e <= u64::MAX,
    ensures
        level_of(e) <= 64,
{
    if e >= 2 {
        lemma_level_of_bounds(e);
        let l = level_of(e);
        if l > 64 {
            lemma2_to64_rest();
            if l - 1 > 64 {
                lemma_pow2_strictly_increases(64, (l - 1) as nat);
            }
            assert(pow2((l - 1) as nat) >= pow2(64));
        }
    }
}

/// Only one level satisfies the ceiling-log characterization.
pub proof fn lemma_level_char_unique(e: nat, a: nat, b: nat)
    requires
        1 <= e,
        pow2(a) >= e,
        a > 0 ==> pow2((a - 1) as nat) < e,
        pow2(b) >= e,
        b > 0 ==> pow2((b - 1) as nat) < e,
    ensures
        a == b,
{
    if a < b {
        if a < b - 1 {
            lemma_pow2_strictly_increases(a, (b - 1) as nat);
        }
        assert(pow2(a) <= pow2((b - 1) as nat));
    }
    if b < a {
        if b < a - 1 {
            lemma_pow2_strictly_increases(b, (a - 1) as nat);
        }
        assert(pow2(b) <= pow2((a - 1) as nat));
    }
}

/// What level an entity is, and the experience that earned it.
#[derive(Clone, Copy, Debug, PartialEq, Eq, Structural)]
pub struct ExpLevel {
    pub experience: u64,
    pub level: u64,
}

impl Default for ExpLevel {
    /// No experience, level zero.
    fn default() -> (r: Self)
        ensures
            r.experience == 0,
            r.level == 0,
    {
        ExpLevel { experience: 0, level: 0 }
    }
}

impl ExpLevel {
    /// A fresh entity with no experience at level zero.
    pub fn new() -> (r: Self)
        ensures
            r.experience == 0,
            r.level == 0,
    {
        Default::default()
    }

    /// Accumulated experience.
    pub fn experience(&self) -> (r: u64)
        ensures
            r == self.experience,
    {
        self.experience
    }

    /// Adds experience, strictly additively; the counter saturates only at
    /// the top of `u64`, the machine limit of the representation.  Check
    /// [`ExpLevel::need_level_up`] afterwards.
    pub fn add_experience(&mut self, experience: u64)
        ensures
            final(self).experience == if old(self).experience + experience <= u64::MAX {
                (old(self).experience + experience) as u64
            } else {
                u64::MAX
            },
            final(self).level == old(self).level,
    {
        self.experience = self.experience.saturating_add(experience);
    }

    /// Current stored level.
    pub fn level(&self) -> (r: u64)
        ensures
            r == self.level,
    {
        self.level
    }

    /// What the level should be based on the earned experience:
    /// `ceil(log2(experience))`, with totals of 0 and 1 both giving level 0.
    /// If this differs from the stored level, the entity is ready to level
    /// up.
    pub fn level_from_exp(&self) -> (r: u64)
        ensures
            r == level_of(self.experience as nat),
            r <= 64,
    {
        let e = self.experience;
        if e <= 1 {
            return 0;
        }
        let e128 = e as u128;
        let mut l: u64 = 0;
        let mut p: u128 = 1;
        proof {
            lemma2_to64();
            lemma2_to64_rest();
        }
        while p < e128
            invariant
                e128 == e as u128,
                2 <= e,
                p == pow2(l as nat),
                l <= 64,
                l > 0 ==> pow2((l - 1) as nat) < e,
            decreases 64 - l,
        {
            proof {
                lemma2_to64_rest();
                if l >= 64 {
                    assert(pow2(64) == 0x10000000000000000);
                    if l > 64 {
                        lemma_pow2_strictly_increases(64, l as nat);
                    }
                    assert(p >= 0x10000000000000000);
                }
                lemma_pow2_unfold((l + 1) as nat);
                assert(p * 2 == pow2((l + 1) as nat));
                assert(p < 0x10000000000000000);
            }
            p = p * 2;
            l = l + 1;
        }
        proof {
            lemma_level_of_bounds(e as nat);
            lemma_level_char_unique(e as nat, l as nat, level_of(e as nat));
        }
        l
    }

    /// True exactly when the derived level differs from the stored one.
    pub fn need_level_up(&self) -> (r: bool)
        ensures
            r == (level_of(self.experience as nat) != self.level),
    {
        self.level_from_exp() != self.level
    }

    /// Stores the derived level.
    pub fn apply_level_up(&mut self)
        ensures
            final(self).experience == old(self).experience,
            final(self).level == level_of(old(self).experience as nat),
    {
        self.level = self.level_from_exp();
    }
}

/// An entity gained experience.
#[derive(Clone, Copy, Debug, PartialEq, Eq, Structural)]
pub struct EventExpGain {
    pub entity: u64,
    pub experience: u64,
}

/// An entity's stored level just changed.
#[derive(Clone, Copy, Debug, PartialEq, Eq, Structural)]
pub struct EventLevelUp {
    pub entity: u64,
}

/// The deferred event queues: experience-gain events and level-up events.
/// Both are readable for the whole tick in which they were enqueued and are
/// cleared exactly once per tick by [`ExperienceBus::update`], after all
/// readers have run.
#[derive(Debug)]
pub struct ExperienceBus {
    pub experience_gain: Vec<EventExpGain>,
    pub level_up: Vec<EventLevelUp>,
}

impl ExperienceBus {
    /// Two empty queues.
    pub fn new() -> (r: Self)
        ensures
            r.experience_gain@ =~= Seq::<EventExpGain>::empty(),
            r.level_up@ =~= Seq::<EventLevelUp>::empty(),
    {
        ExperienceBus { experience_gain: Vec::new(), level_up: Vec::new() }
    }

    /// Enqueues an experience-gain event for this tick's readers.
    pub fn send_experience_gain(&mut self, ev: EventExpGain)
        ensures
            final(self).experience_gain@ == old(self).experience_gain@.push(ev),
            final(self).level_up == old(self).level_up,
    {
        self.experience_gain.push(ev);
    }

    /// Enqueues a level-up event for this tick's readers.
    pub fn send_level_up(&mut self, ev: EventLevelUp)
        ensures
            final(self).level_up@ == old(self).level_up@.push(ev),
            final(self).experience_gain == old(self).experience_gain,
    {
        self.level_up.push(ev);
    }

    /// End-of-tick buffer swap: clears both queues, after every reader for
    /// the tick has run, so no event is seen twice.
    pub fn update(&mut self)
        ensures
            final(self).experience_gain@ =~= Seq::<EventExpGain>::empty(),
            final(self).level_up@ =~= Seq::<EventLevelUp>::empty(),
    {
        self.experience_gain.clear();
        self.level_up.clear();
    }
}

/// Index of the first entity at or after `i` whose id is `id`; -1 when none
/// is.
pub open spec fn entity_index_of(objs: Seq<(u64, ExpLevel)>, id: u64, i: int) -> int
    decreases objs.len() - i,
{
    if i < 0 || i >= objs.len() {
        -1
    } else if objs[i].0 == id {
        i
    } else {
        entity_index_of(objs, id, i + 1)
    }
}

/// `entity_index_of` returns -1 or an index of an entity holding the id.
pub proof fn lemma_entity_index_of_range(objs: Seq<(u64, ExpLevel)>, id: u64, i: int)
    requires
        0 <= i,
    ensures
        entity_index_of(objs, id, i) == -1 || (i <= entity_index_of(objs, id, i) < objs.len()
            && objs[entity_index_of(objs, id, i)].0 == id),
    decreases objs.len() - i,
{
    if i < objs.len() && objs[i].0 != id {
        lemma_entity_index_of_range(objs, id, i + 1);
    }
}

/// Checked lookup of an entity by id: `Some` of the first index holding it,
/// or `None` when the id does not resolve.
pub fn find_entity(objs: &Vec<(u64, ExpLevel)>, id: u64) -> (r: Option<usize>)
    ensures
        r is Some <==> entity_index_of(objs@, id, 0) >= 0,
        r matches Some(j) ==> j == entity_index_of(objs@, id, 0) && j < objs@.len()
            && objs@[j as int].0 == id,
{
    let mut i: usize = 0;
    while i < objs.len()
        invariant
            0 <= i <= objs@.len(),
            entity_index_of(objs@, id, 0) == entity_index_of(objs@, id, i as int),
        decreases objs@.len() - i,
    {
        if objs[i].0 == id {
            return Some(i);
        }
        i = i + 1;
    }
    None
}

/// Addition capped at the top of `u64`.
pub open spec fn sat_add64(a: int, b: int) -> int {
    if a + b <= u64::MAX {
        a + b
    } else {
        u64::MAX as int
    }
}

/// Effect of one experience-gain event: the first entity holding the
/// event's id gains its amount; an unresolved id changes nothing.
pub open spec fn apply_exp_event(
    objs: Seq<(u64, ExpLevel)>,
    ev: EventExpGain,
) -> Seq<(u64, ExpLevel)> {
    let j = entity_index_of(objs, ev.entity, 0);
    if j >= 0 {
        objs.update(
            j,
            (
                objs[j].0,
                ExpLevel {
                    experience: sat_add64(objs[j].1.experience as int, ev.experience as int) as u64,
                    level: objs[j].1.level,
                },
            ),
        )
    } else {
        objs
    }
}

/// Effect of a whole queue of experience-gain events, applied in order.
pub open spec fn apply_exp_events(
    objs: Seq<(u64, ExpLevel)>,
    events: Seq<EventExpGain>,
) -> Seq<(u64, ExpLevel)>
    decreases events.len(),
{
    if events.len() == 0 {
        objs
    } else {
        apply_exp_events(apply_exp_event(objs, events[0]), events.drop_first())
    }
}

/// Appending one event to a queue applies it after the rest.
proof fn lemma_apply_exp_events_snoc(
    objs: Seq<(u64, ExpLevel)>,
    events: Seq<EventExpGain>,
    ev: EventExpGain,
)
    ensures
        apply_exp_events(objs, events.push(ev)) == apply_exp_event(
            apply_exp_events(objs, events),
            ev,
        ),
    decreases events.len(),
{
    let s = events.push(ev);
    if events.len() == 0 {
        assert(s[0] == ev);
        assert(s.drop_first() =~= Seq::<EventExpGain>::empty());
        assert(apply_exp_events(objs, s) == apply_exp_events(
            apply_exp_event(objs, ev),
            s.drop_first(),
        ));
        assert(apply_exp_events(apply_exp_event(objs, ev), s.drop_first()) == apply_exp_event(
            objs,
            ev,
        ));
        assert(apply_exp_events(objs, events) == objs);
    } else {
        assert(s[0] == events[0]);
        assert(s.drop_first() =~= events.drop_first().push(ev));
        let y = apply_exp_event(objs, events[0]);
        assert(apply_exp_events(objs, s) == apply_exp_events(y, s.drop_first()));
        lemma_apply_exp_events_snoc(y, events.drop_first(), ev);
        assert(apply_exp_events(objs, events) == apply_exp_events(y, events.drop_first()));
    }
}

/// Reads this tick's experience-gain events and accumulates each onto the
/// entity it names; an event whose entity id does not resolve is dropped,
/// never fatal.
pub fn process_experience_gain(expbus: &ExperienceBus, objs: &mut Vec<(u64, ExpLevel)>)
    ensures
        final(objs)@ == apply_exp_events(old(objs)@, expbus.experience_gain@),
{
    let n = expbus.experience_gain.len();
    let mut i: usize = 0;
    proof {
        assert(expbus.experience_gain@.take(0) =~= Seq::<EventExpGain>::empty());
    }
    while i < n
        invariant
            0 <= i <= n,
            n == expbus.experience_gain@.len(),
            objs@ == apply_exp_events(old(objs)@, expbus.experience_gain@.take(i as int)),
        decreases n - i,
    {
        let ev = expbus.experience_gain[i];
        let ghost pre = objs@;
        match find_entity(objs, ev.entity) {
            Some(j) => {
                proof {
                    lemma_entity_index_of_range(objs@, ev.entity, 0);
                }
                let cur = objs[j];
                objs[j] = (
                    cur.0,
                    ExpLevel {
                        experience: cur.1.experience.saturating_add(ev.experience),
                        level: cur.1.level,
                    },
                );
                proof {
                    assert(objs@ =~= apply_exp_event(pre, ev));
                }
            },
            None => {
                proof {
                    assert(objs@ =~= apply_exp_event(pre, ev));
                }
            },
        }
        proof {
            lemma_apply_exp_events_snoc(
                old(objs)@,
                expbus.experience_gain@.take(i as int),
                ev,
            );
            assert(expbus.experience_gain@.take(i as int).push(ev) =~= expbus.experience_gain@.take(
                i + 1,
            ));
        }
        i = i + 1;
    }
    proof {
        assert(expbus.experience_gain@.take(n as int) =~= expbus.experience_gain@);
    }
}

/// Whether an entity's derived level differs from its stored one.
pub open spec fn needs_level_up(o: (u64, ExpLevel)) -> bool {
    level_of(o.1.experience as nat) != o.1.level
}

/// The level-up events one pass over the entities raises, in entity order.
pub open spec fn level_ups_of(objs: Seq<(u64, ExpLevel)>) -> Seq<EventLevelUp>
    decreases objs.len(),
{
    if objs.len() == 0 {
        Seq::<EventLevelUp>::empty()
    } else {
        (if needs_level_up(objs[0]) {
            seq![EventLevelUp { entity: objs[0].0 }]
        } else {
            Seq::<EventLevelUp>::empty()
        }) + level_ups_of(objs.drop_first())
    }
}

/// Appending one entity to a pass raises its event after the rest.
proof fn lemma_level_ups_of_snoc(objs: Seq<(u64, ExpLevel)>, o: (u64, ExpLevel))
    ensures
        level_ups_of(objs.push(o)) =~= level_ups_of(objs) + (if needs_level_up(o) {
            seq![EventLevelUp { entity: o.0 }]
        } else {
            Seq::<EventLevelUp>::empty()
        }),
    decreases objs.len(),
{
    let s = objs.push(o);
    if objs.len() == 0 {
        assert(s[0] == o);
        assert(s.drop_first() =~= Seq::<(u64, ExpLevel)>::empty());
        assert(level_ups_of(s.drop_first()) == Seq::<EventLevelUp>::empty());
        assert(level_ups_of(objs) == Seq::<EventLevelUp>::empty());
    } else {
        assert(s[0] == objs[0]);
        assert(s.drop_first() =~= objs.drop_first().push(o));
        lemma_level_ups_of_snoc(objs.drop_first(), o);
        assert(level_ups_of(s) == (if needs_level_up(objs[0]) {
            seq![EventLevelUp { entity: objs[0].0 }]
        } else {
            Seq::<EventLevelUp>::empty()
        }) + level_ups_of(objs.drop_first().push(o)));
        assert((if needs_level_up(objs[0]) {
            seq![EventLevelUp { entity: objs[0].0 }]
        } else {
            Seq::<EventLevelUp>::empty()
        }) + (level_ups_of(objs.drop_first()) + (if needs_level_up(o) {
            seq![EventLevelUp { entity: o.0 }]
        } else {
            Seq::<EventLevelUp>::empty()
        })) =~= level_ups_of(objs) + (if needs_level_up(o) {
            seq![EventLevelUp { entity: o.0 }]
        } else {
            Seq::<EventLevelUp>::empty()
        }));
    }
}

/// Applies every pending level change: each entity's stored level becomes
/// its derived level, and one level-up event is enqueued for exactly the
/// entities whose level changed, in entity order.
pub fn process_level_ups(expbus: &mut ExperienceBus, objs: &mut Vec<(u64, ExpLevel)>)
    ensures
        final(objs)@.len() == old(objs)@.len(),
        forall|k: int|
            0 <= k < old(objs)@.len() ==> #[trigger] final(objs)@[k] == (
                old(objs)@[k].0,
                ExpLevel {
                    experience: old(objs)@[k].1.experience,
                    level: level_of(old(objs)@[k].1.experience as nat) as u64,
                },
            ),
        final(expbus).level_up@ == old(expbus).level_up@ + level_ups_of(old(objs)@),
        final(expbus).experience_gain == old(expbus).experience_gain,
{
    let n = objs.len();
    let mut i: usize = 0;
    proof {
        assert(old(objs)@.take(0) =~= Seq::<(u64, ExpLevel)>::empty());
        assert(expbus.level_up@ =~= old(expbus).level_up@ + level_ups_of(old(objs)@.take(0)));
    }
    while i < n
        invariant
            0 <= i <= n,
            n == objs@.len() == old(objs)@.len(),
            forall|k: int| i <= k < n ==> #[trigger] objs@[k] == old(objs)@[k],
            forall|k: int|
                0 <= k < i ==> #[trigger] objs@[k] == (
                    old(objs)@[k].0,
                    ExpLevel {
                        experience: old(objs)@[k].1.experience,
                        level: level_of(old(objs)@[k].1.experience as nat) as u64,
                    },
                ),
            expbus.level_up@ == old(expbus).level_up@ + level_ups_of(old(objs)@.take(i as int)),
            expbus.experience_gain == old(expbus).experience_gain,
        decreases n - i,
    {
        let (id, mut lvl) = objs[i];
        let needed = lvl.need_level_up();
        if needed {
            lvl.apply_level_up();
            expbus.send_level_up(EventLevelUp { entity: id });
        }
        objs[i] = (id, lvl);
        proof {
            if !needed {
                assert(lvl.level == level_of(lvl.experience as nat));
            }
            lemma_level_ups_of_snoc(old(objs)@.take(i as int), old(objs)@[i as int]);
            assert(old(objs)@.take(i as int).push(old(objs)@[i as int]) =~= old(objs)@.take(
                i + 1,
            ));
        }
        i = i + 1;
    }
    proof {
        assert(old(objs)@.take(n as int) =~= old(objs)@);
    }
}

/// Per-tick system wrapper around [`ExperienceBus::update`].
pub fn update_exp_bus(expbus: &mut ExperienceBus)
    ensures
        final(expbus).experience_gain@ =~= Seq::<EventExpGain>::empty(),
        final(expbus).level_up@ =~= Seq::<EventLevelUp>::empty(),
{
    expbus.update();
}

/// An event enqueued in a tick is visible to that tick's readers, and after
/// the end-of-tick clear it is not seen again: `b1` is the bus right after
/// the send, `b2` the bus right after the following `update`.
pub proof fn lemma_event_single_tick_visibility(
    b0: ExperienceBus,
    b1: ExperienceBus,
    b2: ExperienceBus,
    ev: EventExpGain,
)
    requires
        b1.experience_gain@ == b0.experience_gain@.push(ev),
        b2.experience_gain@ == Seq::<EventExpGain>::empty(),
    ensures
        b1.experience_gain@.contains(ev),
        !b2.experience_gain@.contains(ev),
{
    assert(b1.experience_gain@[b1.experience_gain@.len() - 1] == ev);
}

} // verus!
