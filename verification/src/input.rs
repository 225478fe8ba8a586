use vstd::prelude::*;

verus! {

/// What the platform reports a key or button did.
#[derive(Clone, Copy, PartialEq, Eq, Structural, Debug)]
pub enum InputAction {
    Press,
    Release,
    Repeat,
}

/// A platform event, reduced to the plain values the input model reads.
/// Key and button identifiers are the platform's raw codes; cursor
/// coordinates are carried as the bit patterns of the platform's
/// floating-point values, stored and handed back verbatim.
#[derive(Clone, Copy, PartialEq, Eq, Structural, Debug)]
pub enum WindowEvent {
    Key(i32, InputAction),
    MouseButton(i32, InputAction),
    CursorPos(u64, u64),
    Other,
}

/// Held-state of one identifier: now, and at the last frame boundary.
#[derive(Clone, Copy, PartialEq, Eq, Structural, Debug)]
pub struct InputEntry {
    pub id: i32,
    pub current: bool,
    pub previous: bool,
}

/// A press and a repeat both mean the input is held.
pub open spec fn is_press(a: InputAction) -> bool {
    a == InputAction::Press || a == InputAction::Repeat
}

/// The first entry for `id`, if the identifier has been observed.
pub open spec fn lookup(s: Seq<InputEntry>, id: i32) -> Option<InputEntry>
    decreases s.len(),
{
    if s.len() == 0 {
        None
    } else if s[0].id == id {
        Some(s[0])
    } else {
        lookup(s.drop_first(), id)
    }
}

/// Whether `id` is held now; an unobserved identifier counts as released.
pub open spec fn is_held(s: Seq<InputEntry>, id: i32) -> bool {
    match lookup(s, id) {
        Some(e) => e.current,
        None => false,
    }
}

/// Whether `id` was held at the last frame boundary.
pub open spec fn was_held(s: Seq<InputEntry>, id: i32) -> bool {
    match lookup(s, id) {
        Some(e) => e.previous,
        None => false,
    }
}

/// `id` transitioned from released to held since the last frame boundary.
pub open spec fn went_down(s: Seq<InputEntry>, id: i32) -> bool {
    is_held(s, id) && is_held(s, id) != was_held(s, id)
}

/// `id` transitioned from held to released since the last frame boundary.
pub open spec fn went_up(s: Seq<InputEntry>, id: i32) -> bool {
    was_held(s, id) && is_held(s, id) != was_held(s, id)
}

/// The state after one key or button report: the first entry for `id` has
/// its current state overwritten, or, when `id` was never observed, a fresh
/// entry is appended whose previous state is `seed`.
pub open spec fn record(s: Seq<InputEntry>, id: i32, pressed: bool, seed: bool) -> Seq<InputEntry>
    decreases s.len(),
{
    if s.len() == 0 {
        seq![InputEntry { id, current: pressed, previous: seed }]
    } else if s[0].id == id {
        seq![InputEntry { id, current: pressed, previous: s[0].previous }] + s.drop_first()
    } else {
        seq![s[0]] + record(s.drop_first(), id, pressed, seed)
    }
}

/// The state after a frame boundary: every previous state is synchronized
/// to the current one.
pub open spec fn advanced(s: Seq<InputEntry>) -> Seq<InputEntry> {
    Seq::new(s.len(), |i: int| InputEntry { id: s[i].id, current: s[i].current, previous: s[i].current })
}

/// Tracks, for every identifier the platform has reported, whether it is
/// held now and whether it was held at the last frame boundary. Entries are
/// created on first sight and never removed.
pub struct InputState {
    entries: Vec<InputEntry>,
}

impl View for InputState {
    type V = Seq<InputEntry>;

    closed spec fn view(&self) -> Seq<InputEntry> {
        self.entries@
    }
}

impl InputState {
    /// A tracker that has observed nothing.
    pub fn new() -> (s: InputState)
        ensures
            s@ == Seq::<InputEntry>::empty(),
    {
        InputState { entries: Vec::new() }
    }

    /// Records one key or button report for `id`; `seed` is the previous
    /// state given to an identifier observed for the first time.
    pub fn set_state(&mut self, id: i32, pressed: bool, seed: bool)
        ensures
            final(self)@ == record(old(self)@, id, pressed, seed),
    {
        let n = self.entries.len();
        let mut i: usize = 0;
        while i < n
            invariant
                i <= n,
                n == self.entries.len(),
                self.entries@ == old(self)@,
                forall|j: int| 0 <= j < i ==> old(self)@[j].id != id,
            decreases n - i,
        {
            if self.entries[i].id == id {
                let previous = self.entries[i].previous;
                self.entries.set(i, InputEntry { id, current: pressed, previous });
                proof {
                    lemma_record_found(old(self)@, id, pressed, seed, i as int);
                }
                return;
            }
            i += 1;
        }
        self.entries.push(InputEntry { id, current: pressed, previous: seed });
        proof {
            lemma_record_absent(old(self)@, id, pressed, seed);
        }
    }

    /// The frame-boundary step: copies every current state into the
    /// matching previous state, for all tracked identifiers.
    pub fn advance(&mut self)
        ensures
            final(self)@ == advanced(old(self)@),
    {
        let n = self.entries.len();
        let mut i: usize = 0;
        while i < n
            invariant
                i <= n,
                n == self.entries.len(),
                n == old(self)@.len(),
                forall|j: int| i <= j < n ==> self.entries@[j] == old(self)@[j],
                forall|j: int| 0 <= j < i ==> self.entries@[j] == advanced(old(self)@)[j],
            decreases n - i,
        {
            let e = self.entries[i];
            self.entries.set(i, InputEntry { id: e.id, current: e.current, previous: e.current });
            i += 1;
        }
        proof {
            assert(self.entries@ =~= advanced(old(self)@));
        }
    }

    /// The entry for `id`, if the identifier has been observed.
    pub fn find(&self, id: i32) -> (r: Option<InputEntry>)
        ensures
            r == lookup(self@, id),
    {
        let n = self.entries.len();
        let mut i: usize = 0;
        proof {
            assert(self@.skip(0) =~= self@);
        }
        while i < n
            invariant
                i <= n,
                n == self.entries.len(),
                lookup(self@, id) == lookup(self@.skip(i as int), id),
            decreases n - i,
        {
            if self.entries[i].id == id {
                proof {
                    assert(self@.skip(i as int)[0] == self@[i as int]);
                }
                return Some(self.entries[i]);
            }
            proof {
                assert(self@.skip(i as int).drop_first() =~= self@.skip(i as int + 1));
            }
            i += 1;
        }
        proof {
            assert(self@.skip(n as int) =~= Seq::<InputEntry>::empty());
        }
        None
    }

    /// Whether `id` is held now; never errors on an unobserved identifier.
    pub fn get(&self, id: i32) -> (r: bool)
        ensures
            r == is_held(self@, id),
    {
        match self.find(id) {
            Some(e) => e.current,
            None => false,
        }
    }

    /// Whether `id` went from released to held since the last frame boundary.
    pub fn get_down(&self, id: i32) -> (r: bool)
        ensures
            r == went_down(self@, id),
    {
        match self.find(id) {
            Some(e) => e.current && e.current != e.previous,
            None => false,
        }
    }

    /// Whether `id` went from held to released since the last frame boundary.
    pub fn get_up(&self, id: i32) -> (r: bool)
        ensures
            r == went_up(self@, id),
    {
        match self.find(id) {
            Some(e) => e.previous && e.current != e.previous,
            None => false,
        }
    }
}

proof fn lemma_record_found(s: Seq<InputEntry>, id: i32, pressed: bool, seed: bool, i: int)
    requires
        0 <= i < s.len(),
        s[i].id == id,
        forall|j: int| 0 <= j < i ==> s[j].id != id,
    ensures
        record(s, id, pressed, seed) == s.update(i, InputEntry { id, current: pressed, previous: s[i].previous }),
    decreases i,
{
    if i == 0 {
        assert(record(s, id, pressed, seed) =~= s.update(
            0,
            InputEntry { id, current: pressed, previous: s[0].previous },
        ));
    } else {
        assert(s.drop_first()[i - 1] == s[i]);
        assert(forall|j: int| 0 <= j < i - 1 ==> s.drop_first()[j] == s[j + 1]);
        lemma_record_found(s.drop_first(), id, pressed, seed, i - 1);
        assert(seq![s[0]] + s.drop_first().update(
            i - 1,
            InputEntry { id, current: pressed, previous: s[i].previous },
        ) =~= s.update(i, InputEntry { id, current: pressed, previous: s[i].previous }));
    }
}

proof fn lemma_record_absent(s: Seq<InputEntry>, id: i32, pressed: bool, seed: bool)
    requires
        forall|j: int| 0 <= j < s.len() ==> s[j].id != id,
    ensures
        record(s, id, pressed, seed) == s.push(InputEntry { id, current: pressed, previous: seed }),
    decreases s.len(),
{
    if s.len() == 0 {
        assert(record(s, id, pressed, seed) =~= s.push(
            InputEntry { id, current: pressed, previous: seed },
        ));
    } else {
        assert(forall|j: int| 0 <= j < s.drop_first().len() ==> s.drop_first()[j] == s[j + 1]);
        lemma_record_absent(s.drop_first(), id, pressed, seed);
        assert(seq![s[0]] + s.drop_first().push(InputEntry { id, current: pressed, previous: seed })
            =~= s.push(InputEntry { id, current: pressed, previous: seed }));
    }
}

/// What `record` does to the recorded identifier's own entry.
pub proof fn lemma_lookup_record_same(s: Seq<InputEntry>, id: i32, pressed: bool, seed: bool)
    ensures
        lookup(record(s, id, pressed, seed), id) == Some(
            InputEntry {
                id,
                current: pressed,
                previous: match lookup(s, id) {
                    Some(e) => e.previous,
                    None => seed,
                },
            },
        ),
    decreases s.len(),
{
    if s.len() == 0 {
    } else if s[0].id == id {
        let r = record(s, id, pressed, seed);
        assert(r[0] == InputEntry { id, current: pressed, previous: s[0].previous });
    } else {
        let r = record(s, id, pressed, seed);
        assert(r[0] == s[0]);
        assert(r.drop_first() =~= record(s.drop_first(), id, pressed, seed));
        lemma_lookup_record_same(s.drop_first(), id, pressed, seed);
    }
}

/// `record` for one identifier leaves every other identifier's entry alone.
pub proof fn lemma_lookup_record_other(s: Seq<InputEntry>, id: i32, pressed: bool, seed: bool, other: i32)
    requires
        other != id,
    ensures
        lookup(record(s, id, pressed, seed), other) == lookup(s, other),
    decreases s.len(),
{
    let r = record(s, id, pressed, seed);
    if s.len() == 0 {
        assert(r[0].id == id);
        assert(r.drop_first() =~= Seq::<InputEntry>::empty());
        assert(lookup(r, other) == lookup(r.drop_first(), other));
        assert(lookup(r, other) is None);
    } else if s[0].id == id {
        assert(r[0].id == id);
        assert(r.drop_first() =~= s.drop_first());
        assert(lookup(r, other) == lookup(r.drop_first(), other));
        assert(lookup(s, other) == lookup(s.drop_first(), other));
    } else {
        assert(r[0] == s[0]);
        assert(r.drop_first() =~= record(s.drop_first(), id, pressed, seed));
        lemma_lookup_record_other(s.drop_first(), id, pressed, seed, other);
        if s[0].id == other {
            assert(lookup(r, other) == Some(r[0]));
            assert(lookup(s, other) == Some(s[0]));
        } else {
            assert(lookup(r, other) == lookup(r.drop_first(), other));
            assert(lookup(s, other) == lookup(s.drop_first(), other));
        }
    }
}

/// What a frame boundary does to one identifier's entry.
pub proof fn lemma_lookup_advanced(s: Seq<InputEntry>, id: i32)
    ensures
        lookup(advanced(s), id) == match lookup(s, id) {
            Some(e) => Some(InputEntry { id: e.id, current: e.current, previous: e.current }),
            None => None::<InputEntry>,
        },
    decreases s.len(),
{
    if s.len() == 0 {
        assert(advanced(s) =~= Seq::<InputEntry>::empty());
    } else {
        assert(advanced(s)[0] == InputEntry {
            id: s[0].id,
            current: s[0].current,
            previous: s[0].current,
        });
        assert(advanced(s).drop_first() =~= advanced(s.drop_first()));
        lemma_lookup_advanced(s.drop_first(), id);
    }
}

/// A transition cannot be both a press and a release: `went_down` and
/// `went_up` are never both true for the same identifier in the same state.
pub proof fn lemma_edges_exclusive(s: Seq<InputEntry>, id: i32)
    ensures
        !(went_down(s, id) && went_up(s, id)),
{
}

/// An identifier that was never observed answers every query with false.
pub proof fn lemma_unobserved_queries(s: Seq<InputEntry>, id: i32)
    requires
        lookup(s, id) is None,
    ensures
        !is_held(s, id),
        !went_down(s, id),
        !went_up(s, id),
{
}

/// Frame boundaries do not create entries.
pub proof fn lemma_advanced_keeps_unobserved(s: Seq<InputEntry>, id: i32)
    requires
        lookup(s, id) is None,
    ensures
        lookup(advanced(s), id) is None,
{
    lemma_lookup_advanced(s, id);
}

/// Right after a frame boundary no identifier shows an edge: both
/// `went_down` and `went_up` are false for every identifier.
pub proof fn lemma_advanced_clears_edges(s: Seq<InputEntry>, id: i32)
    ensures
        !went_down(advanced(s), id),
        !went_up(advanced(s), id),
{
    lemma_lookup_advanced(s, id);
}

/// A frame boundary with no intervening events is idempotent: a second
/// boundary leaves the whole state, and so every query, unchanged.
pub proof fn lemma_advanced_idempotent(s: Seq<InputEntry>)
    ensures
        advanced(advanced(s)) == advanced(s),
{
    assert(advanced(advanced(s)) =~= advanced(s));
}

} // verus!
