//! Staves of generated measures and the game that walks a cursor through
//! them, judging pressed keys against the targeted note.

use crate::music::{Clef, KeySignature, Semitone};
use crate::notation::{normalized, Highlight, Measure, Note};
use crate::random::thread_rng;
use vstd::prelude::*;

verus! {

/// A position or an extent on the screen.
#[derive(Debug, PartialEq, Eq, Structural, Clone, Copy)]
pub struct Point {
    pub x: i32,
    pub y: i32,
}

/// Measures a generated stave holds.
pub const MEASURES_PER_STAVE: usize = 3;

/// Notes a generated measure holds.
pub const NOTES_PER_MEASURE: usize = 4;

/// One staff line of music: where it is drawn, its clef and signature, and
/// its measures.
pub struct Stave {
    pub x_pos: i32,
    pub size: Point,
    /// Height between two consecutive note positions, the notes' radius.
    pub gap: i32,
    pub clef: Clef,
    pub key_signature: KeySignature,
    pub measures: Vec<Measure>,
}

/// Whether `notes` is a measure resolved from four notes freshly drawn for
/// clef `c`.
pub open spec fn drawn_measure(notes: Seq<Note>, c: Clef, ks: KeySignature) -> bool {
    exists|raw: Seq<Note>|
        {
            &&& raw.len() == NOTES_PER_MEASURE
            &&& forall|j: int| 0 <= j < raw.len() ==> (#[trigger] raw[j]).drawn_for(c)
            &&& #[trigger] normalized(raw, ks) == notes
        }
}

/// A tenth of `y`, rounded toward zero.
pub open spec fn tenth_toward_zero(y: int) -> int {
    if y >= 0 {
        y / 10
    } else {
        -((-y) / 10)
    }
}

/// A resolved measure of drawn notes: four of them, plain and on the
/// semitone scale.
pub open spec fn drawn_notes_ok(notes: Seq<Note>, c: Clef, ks: KeySignature) -> bool {
    &&& drawn_measure(notes, c, ks)
    &&& notes.len() == NOTES_PER_MEASURE
    &&& forall|n: int|
        0 <= n < notes.len() ==> (#[trigger] notes[n]).in_range() && notes[n].color
            == Highlight::Plain
}

proof fn lemma_drawn_notes_ok(raw: Seq<Note>, c: Clef, ks: KeySignature)
    requires
        raw.len() == NOTES_PER_MEASURE,
        forall|j: int| 0 <= j < raw.len() ==> (#[trigger] raw[j]).drawn_for(c),
    ensures
        drawn_notes_ok(normalized(raw, ks), c, ks),
{
    let notes = normalized(raw, ks);
    assert forall|n: int| 0 <= n < notes.len() implies (#[trigger] notes[n]).in_range()
        && notes[n].color == Highlight::Plain by {
        assert(raw[n].drawn_for(c));
    }
}

impl Stave {
    /// Note `n` of measure `m`.
    pub open spec fn note(&self, m: int, n: int) -> Note {
        self.measures@[m].notes@[n]
    }

    /// Whether measure `m` and note `n` within it exist.
    pub open spec fn has_note(&self, m: int, n: int) -> bool {
        0 <= m < self.measures@.len() && 0 <= n < self.measures@[m].notes@.len()
    }

    /// A playable stave: a valid signature, no empty measure and at least
    /// one, every note on the 8-bit semitone scale.
    pub open spec fn wf(&self) -> bool {
        &&& self.key_signature.wf()
        &&& self.measures@.len() >= 1
        &&& forall|m: int|
            0 <= m < self.measures@.len() ==> (#[trigger] self.measures@[m]).notes@.len() >= 1
        &&& forall|m: int, n: int| #[trigger]
            self.has_note(m, n) ==> self.note(m, n).in_range()
    }

    /// A stave as generated: three measures of four drawn notes, all plain.
    pub open spec fn generated(&self) -> bool {
        &&& self.measures@.len() == MEASURES_PER_STAVE
        &&& forall|m: int|
            0 <= m < self.measures@.len() ==> drawn_measure(
                (#[trigger] self.measures@[m]).notes@,
                self.clef,
                self.key_signature,
            )
        &&& forall|m: int, n: int| #[trigger]
            self.has_note(m, n) ==> self.note(m, n).color == Highlight::Plain
    }

    /// An empty stave; the gap between note positions is a tenth of the
    /// height, rounded toward zero.
    pub fn new(x_pos: i32, size: Point, clef: Clef, key_signature: KeySignature) -> (r: Stave)
        ensures
            r.x_pos == x_pos,
            r.size == size,
            r.gap == tenth_toward_zero(size.y as int),
            r.clef == clef,
            r.key_signature == key_signature,
            r.measures@.len() == 0,
    {
        let gap = size.y / 10;
        Stave { x_pos, size, gap, measures: Vec::new(), key_signature, clef }
    }

    /// A stave of three measures of four notes drawn at random for `clef`,
    /// each measure resolved against `key_signature`.
    pub fn new_random(x_pos: i32, size: Point, clef: Clef, key_signature: KeySignature) -> (r: Stave)
        requires
            key_signature.wf(),
        ensures
            r.wf(),
            r.generated(),
            r.x_pos == x_pos,
            r.size == size,
            r.gap == tenth_toward_zero(size.y as int),
            r.clef == clef,
            r.key_signature == key_signature,
    {
        let mut s = Stave::new(x_pos, size, clef, key_signature);
        let mut rng = thread_rng();
        let mut i: usize = 0;
        while i < MEASURES_PER_STAVE
            invariant
                i <= MEASURES_PER_STAVE,
                s.measures@.len() == i,
                s.x_pos == x_pos,
                s.size == size,
                s.gap == tenth_toward_zero(size.y as int),
                s.clef == clef,
                s.key_signature == key_signature,
                key_signature.wf(),
                forall|m: int|
                    0 <= m < i ==> drawn_notes_ok((#[trigger] s.measures@[m]).notes@, clef, key_signature),
            decreases MEASURES_PER_STAVE - i,
        {
            let mut raw: Vec<Note> = Vec::new();
            let mut j: usize = 0;
            while j < NOTES_PER_MEASURE
                invariant
                    j <= NOTES_PER_MEASURE,
                    raw@.len() == j,
                    forall|k: int| 0 <= k < j ==> (#[trigger] raw@[k]).drawn_for(clef),
                decreases NOTES_PER_MEASURE - j,
            {
                raw.push(Note::new_random(&mut rng, clef));
                j = j + 1;
            }
            let ghost raw_notes = raw@;
            let m = Measure::new(raw, key_signature);
            proof {
                lemma_drawn_notes_ok(raw_notes, clef, key_signature);
            }
            s.add_measure(m);
            i = i + 1;
        }
        s
    }

    pub fn add_measure(&mut self, m: Measure)
        ensures
            final(self).measures@ == old(self).measures@.push(m),
            final(self).x_pos == old(self).x_pos,
            final(self).size == old(self).size,
            final(self).gap == old(self).gap,
            final(self).clef == old(self).clef,
            final(self).key_signature == old(self).key_signature,
    {
        self.measures.push(m);
    }
}

impl Stave {
    /// The notes of each measure, measure by measure.
    pub open spec fn sheet(&self) -> Seq<Seq<Note>> {
        self.measures@.map_values(|ms: Measure| ms.notes@)
    }

    /// Everything but the measures.
    pub open spec fn header(&self) -> (i32, Point, i32, Clef, KeySignature) {
        (self.x_pos, self.size, self.gap, self.clef, self.key_signature)
    }
}

/// `sheet` with note `n` of measure `m` given highlight `h`.
pub open spec fn recolor(sheet: Seq<Seq<Note>>, m: int, n: int, h: Highlight) -> Seq<Seq<Note>> {
    sheet.update(m, sheet[m].update(n, Note { color: h, ..sheet[m][n] }))
}

/// `new` is `old` with note `n` of measure `m` given highlight `h`.
pub open spec fn recolored(old: Stave, new: Stave, m: int, n: int, h: Highlight) -> bool {
    &&& new.header() == old.header()
    &&& new.sheet() == recolor(old.sheet(), m, n, h)
}

impl Stave {
    /// Gives note `n` of measure `m` highlight `h`.
    pub fn set_color(&mut self, m: usize, n: usize, h: Highlight)
        requires
            old(self).has_note(m as int, n as int),
        ensures
            recolored(*old(self), *final(self), m as int, n as int, h),
    {
        self.measures[m].notes[n].color = h;
        proof {
            assert(self.sheet() =~~= recolor(old(self).sheet(), m as int, n as int, h));
        }
    }
}

/// Recoloring a note keeps a stave's shape and playability and touches no
/// other note.
proof fn lemma_recolored(old: Stave, new: Stave, m: int, n: int, h: Highlight)
    requires
        old.has_note(m, n),
        recolored(old, new, m, n, h),
    ensures
        old.wf() ==> new.wf(),
        new.measures@.len() == old.measures@.len(),
        forall|i: int|
            0 <= i < new.measures@.len() ==> (#[trigger] new.measures@[i]).notes@.len()
                == old.measures@[i].notes@.len(),
        forall|i: int, j: int| #[trigger] new.has_note(i, j) <==> old.has_note(i, j),
        forall|i: int, j: int|
            #[trigger] new.has_note(i, j) ==> new.note(i, j) == if i == m && j == n {
                Note { color: h, ..old.note(i, j) }
            } else {
                old.note(i, j)
            },
{
    assert(new.sheet().len() == old.sheet().len());
    assert forall|i: int| 0 <= i < new.measures@.len() implies (#[trigger] new.measures@[i]).notes@.len()
        == old.measures@[i].notes@.len() by {
        assert(new.sheet()[i] == new.measures@[i].notes@);
        assert(old.sheet()[i] == old.measures@[i].notes@);
    }
    assert forall|i: int, j: int| #[trigger] new.has_note(i, j) implies new.note(i, j) == if i == m
        && j == n {
        Note { color: h, ..old.note(i, j) }
    } else {
        old.note(i, j)
    } by {
        assert(new.sheet()[i] == new.measures@[i].notes@);
        assert(old.sheet()[i] == old.measures@[i].notes@);
    }
    assert forall|i: int, j: int| #[trigger] new.has_note(i, j) <==> old.has_note(i, j) by {
        if 0 <= i < new.measures@.len() {
            assert(new.sheet()[i] == new.measures@[i].notes@);
            assert(old.sheet()[i] == old.measures@[i].notes@);
        }
    }
    if old.wf() {
        assert forall|i: int, j: int| #[trigger] new.has_note(i, j) implies new.note(i, j).in_range() by {
            assert(old.has_note(i, j));
        }
        assert forall|i: int| 0 <= i < new.measures@.len() implies (#[trigger] new.measures@[i]).notes@.len()
            >= 1 by {
            assert(old.measures@[i].notes@.len() >= 1);
        }
    }
}

/// Staves a game keeps on screen.
pub const STAVE_COUNT: usize = 4;

/// Whether a highlight marks the current target: awaiting a key, or
/// answered with a wrong one.
pub open spec fn marks_target(h: Highlight) -> bool {
    h == Highlight::Target || h == Highlight::Incorrect
}

/// The note the cursor addresses in the front stave.
pub open spec fn target_of(staves: Seq<Stave>, cursor: (int, int)) -> Note {
    staves[0].note(cursor.0, cursor.1)
}

/// Where the cursor goes after its note is matched, or `None` when that note
/// ends the front stave.
pub open spec fn next_position(st: Stave, cursor: (int, int)) -> Option<(int, int)> {
    if cursor.1 + 1 < st.measures@[cursor.0].notes@.len() {
        Some((cursor.0, cursor.1 + 1))
    } else if cursor.0 + 1 < st.measures@.len() {
        Some((cursor.0 + 1, 0))
    } else {
        None
    }
}

/// A consistent game: four playable staves, a cursor on a note of the front
/// one, no more correct answers than attempts, and exactly the addressed
/// note marked as the target.
pub open spec fn game_wf(staves: Seq<Stave>, cursor: (int, int), score: (int, int)) -> bool {
    &&& staves.len() == STAVE_COUNT
    &&& forall|s: int| 0 <= s < staves.len() ==> (#[trigger] staves[s]).wf()
    &&& staves[0].has_note(cursor.0, cursor.1)
    &&& 0 <= score.0 <= score.1
    &&& only_target_at(staves, cursor)
}

/// Exactly note `cursor` of the front stave is marked as the target.
pub open spec fn only_target_at(staves: Seq<Stave>, cursor: (int, int)) -> bool {
    forall|s: int, m: int, n: int|
        0 <= s < staves.len() && #[trigger] staves[s].has_note(m, n) ==> (marks_target(
            staves[s].note(m, n).color,
        ) <==> (s == 0 && m == cursor.0 && n == cursor.1))
}

/// Changing only the front stave, into a playable stave whose one target is
/// note `d`, keeps every stave playable and makes `d` the only target.
proof fn lemma_front_changed(old: Seq<Stave>, c: (int, int), new: Seq<Stave>, d: (int, int))
    requires
        forall|s: int| 0 <= s < old.len() ==> (#[trigger] old[s]).wf(),
        only_target_at(old, c),
        new.len() == old.len() >= 1,
        new.skip(1) == old.skip(1),
        new[0].wf(),
        forall|i: int, j: int| #[trigger]
            new[0].has_note(i, j) ==> (marks_target(new[0].note(i, j).color) <==> (i == d.0 && j
                == d.1)),
    ensures
        forall|s: int| 0 <= s < new.len() ==> (#[trigger] new[s]).wf(),
        only_target_at(new, d),
{
    assert forall|s: int| 1 <= s < new.len() implies #[trigger] new[s] == old[s] by {
        assert(new[s] == new.skip(1)[s - 1]);
    }
    assert forall|s: int, i: int, j: int|
        0 <= s < new.len() && #[trigger] new[s].has_note(i, j) implies (marks_target(
        new[s].note(i, j).color,
    ) <==> (s == 0 && i == d.0 && j == d.1)) by {
        if s != 0 {
            assert(new[s] == old[s]);
        }
    }
    assert forall|s: int| 0 <= s < new.len() implies (#[trigger] new[s]).wf() by {
        if s != 0 {
            assert(new[s] == old[s]);
        }
    }
}

/// The game: its staves, the cursor (measure, note) in the front stave, the
/// key held down, and the score (correct answers, attempts).
pub struct Game {
    size_stave: Point,
    x_pos_stave: i32,
    staves: Vec<Stave>,
    current_measure_note: (usize, usize),
    pressed_semitone: Option<Semitone>,
    score: (u32, u32),
}

impl Game {
    /// The staves on screen, front first.
    pub closed spec fn spec_staves(&self) -> Seq<Stave> {
        self.staves@
    }

    /// The cursor: measure and note index in the front stave.
    pub closed spec fn spec_cursor(&self) -> (int, int) {
        (self.current_measure_note.0 as int, self.current_measure_note.1 as int)
    }

    /// The key held down since the last press, if not yet released.
    pub closed spec fn spec_held(&self) -> Option<Semitone> {
        self.pressed_semitone
    }

    /// Correct answers and attempts.
    pub closed spec fn spec_score(&self) -> (int, int) {
        (self.score.0 as int, self.score.1 as int)
    }

    /// Where new staves are placed and how large they are.
    pub closed spec fn spec_layout(&self) -> (i32, Point) {
        (self.x_pos_stave, self.size_stave)
    }

    pub open spec fn wf(&self) -> bool {
        game_wf(self.spec_staves(), self.spec_cursor(), self.spec_score())
    }

    /// The note the cursor addresses.
    pub open spec fn target(&self) -> Note {
        target_of(self.spec_staves(), self.spec_cursor())
    }
}

impl Game {
    /// Judges a pressed key against the target note.
    pub fn pressed_semitone(&mut self, pressed_semitone: &Semitone)
        requires
            old(self).wf(),
            old(self).spec_score().1 < u32::MAX,
        ensures
            final(self).wf(),
            press_step(*old(self), *pressed_semitone, *final(self)),
    {
        let ghost old_staves = self.staves@;
        let ghost c = self.spec_cursor();
        self.pressed_semitone = Some(*pressed_semitone);
        let (m, n) = self.current_measure_note;
        proof {
            assert(old_staves[0].wf());
        }
        let searched = self.staves[0].measures[m].notes[n].to_semitone();
        if searched == *pressed_semitone {
            self.score.0 = self.score.0 + 1;
            self.staves[0].set_color(m, n, Highlight::Correct);
            let ghost st1 = self.staves@[0];
            proof {
                lemma_recolored(old_staves[0], st1, c.0, c.1, Highlight::Correct);
            }
            let measure_len = self.staves[0].measures[m].notes.len();
            let stave_len = self.staves[0].measures.len();
            let mut cursor: (usize, usize) = (0, 0);
            if n < measure_len - 1 {
                cursor = (m, n + 1);
            } else {
                if m < stave_len - 1 {
                    cursor = (m + 1, 0);
                } else {
                    self.staves.remove(0);
                    cursor = (0, 0);
                    let mut rng = thread_rng();
                    let clef = Clef::new_random(&mut rng);
                    let key_signature = KeySignature::new_random(&mut rng);
                    self.staves.push(
                        Stave::new_random(self.x_pos_stave, self.size_stave, clef, key_signature),
                    );
                    proof {
                        assert(self.staves@[0] == old_staves[1]);
                        assert(old_staves[1].wf());
                    }
                }
            }
            self.current_measure_note = cursor;
            let ghost before = self.staves@[0];
            self.staves[0].set_color(cursor.0, cursor.1, Highlight::Target);
            proof {
                lemma_recolored(before, self.staves@[0], cursor.0 as int, cursor.1 as int, Highlight::Target);
                let new_staves = self.staves@;
                match next_position(old_staves[0], c) {
                    Some(d) => {
                        assert(d == (cursor.0 as int, cursor.1 as int));
                        assert(new_staves.skip(1) =~= old_staves.skip(1));
                        assert(new_staves[0].sheet() == recolor(
                            recolor(old_staves[0].sheet(), c.0, c.1, Highlight::Correct),
                            d.0,
                            d.1,
                            Highlight::Target,
                        ));
                        assert forall|i: int, j: int| #[trigger]
                            new_staves[0].has_note(i, j) implies (marks_target(
                            new_staves[0].note(i, j).color,
                        ) <==> (i == d.0 && j == d.1)) by {
                            assert(old_staves[0].has_note(i, j));
                        }
                        lemma_front_changed(old_staves, c, new_staves, d);
                    },
                    None => {
                        let k = new_staves.len() as int;
                        assert(new_staves.subrange(1, k - 1) =~= old_staves.subrange(2, k));
                        assert forall|s: int, i: int, j: int|
                            0 <= s < new_staves.len() && #[trigger] new_staves[s].has_note(i, j) implies (
                            marks_target(new_staves[s].note(i, j).color) <==> (s == 0 && i == 0
                                && j == 0)) by {
                            if s == 0 {
                                assert(old_staves[1].has_note(i, j));
                            } else if s < k - 1 {
                                assert(new_staves[s] == old_staves[s + 1]);
                            } else {
                                assert(new_staves[s].generated());
                            }
                        }
                        assert forall|s: int| 0 <= s < new_staves.len() implies (#[trigger] new_staves[s]).wf() by {
                            if 0 < s < k - 1 {
                                assert(new_staves[s] == old_staves[s + 1]);
                            }
                        }
                    },
                }
            }
        } else {
            self.staves[0].set_color(m, n, Highlight::Incorrect);
            proof {
                lemma_recolored(old_staves[0], self.staves@[0], c.0, c.1, Highlight::Incorrect);
                assert(self.staves@.skip(1) =~= old_staves.skip(1));
                assert forall|i: int, j: int| #[trigger]
                    self.staves@[0].has_note(i, j) implies (marks_target(
                    self.staves@[0].note(i, j).color,
                ) <==> (i == c.0 && j == c.1)) by {
                    assert(old_staves[0].has_note(i, j));
                }
                lemma_front_changed(old_staves, c, self.staves@, c);
            }
        }
        self.score.1 = self.score.1 + 1;
    }
}

/// Width of the staves on a screen `screen_width` wide: nine tenths of it.
pub open spec fn stave_width(screen_width: int) -> int {
    screen_width * 9 / 10
}

/// Height of every stave.
pub const STAVE_HEIGHT: i32 = 50;

impl Game {
    /// A game of four random staves, centred on a screen `screen_width`
    /// wide, with the first note of the front stave as the target.
    pub fn new(screen_width: u32) -> (r: Game)
        requires
            screen_width <= i32::MAX,
        ensures
            r.wf(),
            r.spec_cursor() == (0int, 0int),
            r.spec_score() == (0int, 0int),
            r.spec_held() == None::<Semitone>,
            r.spec_layout().0 == (screen_width - stave_width(screen_width as int)) / 2,
            r.spec_layout().1 == (Point { x: stave_width(screen_width as int) as i32, y: STAVE_HEIGHT }),
            forall|s: int|
                0 < s < r.spec_staves().len() ==> (#[trigger] r.spec_staves()[s]).generated(),
            exists|g: Stave| g.generated() && #[trigger] recolored(g, r.spec_staves()[0], 0, 0, Highlight::Target),
            forall|s: int|
                0 <= s < r.spec_staves().len() ==> (#[trigger] r.spec_staves()[s]).x_pos == r.spec_layout().0
                    && r.spec_staves()[s].size == r.spec_layout().1,
    {
        let width: i32 = (screen_width as u64 * 9 / 10) as i32;
        let size_stave = Point { x: width, y: STAVE_HEIGHT };
        let x_pos_stave: i32 = (screen_width as i32 - width) / 2;
        let mut rng = thread_rng();
        let mut staves: Vec<Stave> = Vec::new();
        let mut i: usize = 0;
        while i < STAVE_COUNT
            invariant
                i <= STAVE_COUNT,
                staves@.len() == i,
                forall|s: int|
                    0 <= s < i ==> {
                        &&& (#[trigger] staves@[s]).wf()
                        &&& staves@[s].generated()
                        &&& staves@[s].x_pos == x_pos_stave
                        &&& staves@[s].size == size_stave
                    },
            decreases STAVE_COUNT - i,
        {
            let clef = Clef::new_random(&mut rng);
            let key_signature = KeySignature::new_random(&mut rng);
            staves.push(Stave::new_random(x_pos_stave, size_stave, clef, key_signature));
            i = i + 1;
        }
        let ghost first = staves@[0];
        staves[0].set_color(0, 0, Highlight::Target);
        proof {
            lemma_recolored(first, staves@[0], 0, 0, Highlight::Target);
            assert forall|s: int, m: int, n: int|
                0 <= s < staves@.len() && #[trigger] staves@[s].has_note(m, n) implies (marks_target(
                staves@[s].note(m, n).color,
            ) <==> (s == 0 && m == 0 && n == 0)) by {
                if s == 0 {
                    assert(first.has_note(m, n));
                }
            }
            assert(recolored(first, staves@[0], 0, 0, Highlight::Target));
        }
        Game {
            size_stave,
            x_pos_stave,
            staves,
            current_measure_note: (0, 0),
            pressed_semitone: None,
            score: (0, 0),
        }
    }

    /// Restores the target's highlight when the held key is released.
    pub fn released_semitone(&mut self, released_semitone: &Semitone)
        requires
            old(self).wf(),
        ensures
            final(self).wf(),
            release_step(*old(self), *released_semitone, *final(self)),
    {
        let ghost old_staves = self.staves@;
        let ghost c = self.spec_cursor();
        let held = match self.pressed_semitone {
            Some(p) => p == *released_semitone,
            None => false,
        };
        if held {
            self.pressed_semitone = None;
            let (m, n) = self.current_measure_note;
            self.staves[0].set_color(m, n, Highlight::Target);
            proof {
                lemma_recolored(old_staves[0], self.staves@[0], c.0, c.1, Highlight::Target);
                assert(self.staves@.skip(1) =~= old_staves.skip(1));
                assert forall|i: int, j: int| #[trigger]
                    self.staves@[0].has_note(i, j) implies (marks_target(
                    self.staves@[0].note(i, j).color,
                ) <==> (i == c.0 && j == c.1)) by {
                    assert(old_staves[0].has_note(i, j));
                }
                lemma_front_changed(old_staves, c, self.staves@, c);
            }
        }
    }

    /// Decodes a three-byte MIDI note message: byte 1 is the key number, and
    /// a zero velocity in byte 2 is a release, any other a press.
    pub fn parse_midi_message(&mut self, message: &[u8])
        requires
            old(self).wf(),
            old(self).spec_score().1 < u32::MAX,
            message@.len() >= 3,
        ensures
            final(self).wf(),
            message@[2] == 0 ==> release_step(*old(self), Semitone(message@[1]), *final(self)),
            message@[2] != 0 ==> press_step(*old(self), Semitone(message@[1]), *final(self)),
    {
        let semitone = Semitone(message[1]);
        if message[2] == 0 {
            self.released_semitone(&semitone);
        } else {
            self.pressed_semitone(&semitone);
        }
    }

    /// The staves on screen, front first.
    pub fn staves(&self) -> (r: &Vec<Stave>)
        ensures
            r@ == self.spec_staves(),
    {
        &self.staves
    }

    /// The cursor: measure index and note index in the front stave.
    pub fn cursor(&self) -> (r: (usize, usize))
        ensures
            r.0 == self.spec_cursor().0,
            r.1 == self.spec_cursor().1,
    {
        self.current_measure_note
    }

    /// The score: correct answers and attempts.
    pub fn score(&self) -> (r: (u32, u32))
        ensures
            r.0 == self.spec_score().0,
            r.1 == self.spec_score().1,
    {
        self.score
    }

    /// The key held down, if any.
    pub fn held(&self) -> (r: Option<Semitone>)
        ensures
            r == self.spec_held(),
    {
        self.pressed_semitone
    }
}

/// What pressing key `k` does to game `old`, giving `new`: the key is held;
/// every press counts as an attempt. A key on the target's semitone counts as
/// correct, marks the target correct and moves the cursor one note on; past
/// the last note of the front stave that stave leaves, a freshly generated
/// one joins at the back, and the cursor starts the new front stave. The
/// note then addressed becomes the target. Any other key marks the target
/// incorrect and leaves the cursor where it is.
pub open spec fn press_step(old: Game, k: Semitone, new: Game) -> bool {
    let c = old.spec_cursor();
    let front = old.spec_staves()[0];
    let hit = old.target().semitone() == k.0;
    &&& new.spec_held() == Some(k)
    &&& new.spec_layout() == old.spec_layout()
    &&& new.spec_score().1 == old.spec_score().1 + 1
    &&& new.spec_score().0 == old.spec_score().0 + if hit {
        1int
    } else {
        0
    }
    &&& new.spec_staves().len() == old.spec_staves().len()
    &&& !hit ==> {
        &&& new.spec_cursor() == c
        &&& recolored(front, new.spec_staves()[0], c.0, c.1, Highlight::Incorrect)
        &&& new.spec_staves().skip(1) == old.spec_staves().skip(1)
    }
    &&& hit ==> match next_position(front, c) {
        Some(d) => {
            &&& new.spec_cursor() == d
            &&& new.spec_staves()[0].header() == front.header()
            &&& new.spec_staves()[0].sheet() == recolor(
                recolor(front.sheet(), c.0, c.1, Highlight::Correct),
                d.0,
                d.1,
                Highlight::Target,
            )
            &&& new.spec_staves().skip(1) == old.spec_staves().skip(1)
        },
        None => {
            let n = old.spec_staves().len() as int;
            &&& new.spec_cursor() == (0int, 0int)
            &&& recolored(old.spec_staves()[1], new.spec_staves()[0], 0, 0, Highlight::Target)
            &&& new.spec_staves().subrange(1, n - 1) == old.spec_staves().subrange(2, n)
            &&& new.spec_staves()[n - 1].generated()
            &&& new.spec_staves()[n - 1].x_pos == old.spec_layout().0
            &&& new.spec_staves()[n - 1].size == old.spec_layout().1
        },
    }
}

/// What releasing key `k` does to game `old`, giving `new`: when `k` is the
/// held key it is no longer held and the addressed note is the target again;
/// any other release changes nothing.
pub open spec fn release_step(old: Game, k: Semitone, new: Game) -> bool {
    if old.spec_held() == Some(k) {
        let c = old.spec_cursor();
        &&& new.spec_held() == None::<Semitone>
        &&& new.spec_layout() == old.spec_layout()
        &&& new.spec_score() == old.spec_score()
        &&& new.spec_cursor() == c
        &&& new.spec_staves().len() == old.spec_staves().len()
        &&& recolored(old.spec_staves()[0], new.spec_staves()[0], c.0, c.1, Highlight::Target)
        &&& new.spec_staves().skip(1) == old.spec_staves().skip(1)
    } else {
        new == old
    }
}

} // verus!
