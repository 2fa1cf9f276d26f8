//! The frame source.

use vstd::prelude::*;
use std::collections::BTreeMap;
use crate::config::VideoConfig;
use crate::profile::{LoadError, Profile};

verus! {

/// One row of the frame table as it is read in: the size in bytes of one
/// frame under one configuration.
#[derive(Debug, PartialEq, Eq, Structural, Clone, Copy)]
pub struct FrameRecord {
    pub config: VideoConfig,
    pub frame: usize,
    pub bytes: usize,
}

/// The frame table that a list of rows makes: a later row replaces an earlier
/// one for the same configuration and frame.
pub open spec fn table_of(records: Seq<FrameRecord>) -> Map<(VideoConfig, usize), usize>
    decreases records.len(),
{
    if records.len() == 0 {
        Map::empty()
    } else {
        let last = records.last();
        table_of(records.drop_last()).insert((last.config, last.frame), last.bytes)
    }
}

/// The largest frame index among the rows, zero where there is none. The
/// frames of a stream are those below it.
pub open spec fn frames_of(records: Seq<FrameRecord>) -> usize
    decreases records.len(),
{
    if records.len() == 0 {
        0
    } else {
        let rest = frames_of(records.drop_last());
        if records.last().frame > rest {
            records.last().frame
        } else {
            rest
        }
    }
}

/// Whether the table has a size for every configuration of the ladder at
/// every frame index below `frames`.
pub open spec fn dense(
    table: Map<(VideoConfig, usize), usize>,
    ladder: Seq<VideoConfig>,
    frames: usize,
) -> bool {
    forall|level: int, frame: usize|
        0 <= level < ladder.len() && frame < frames ==> #[trigger] table.contains_key(
            (ladder[level], frame),
        )
}

/// Whether the cell at `level` and `frame` is the first that the table lacks,
/// going through the ladder from the bottom and through the frames of each
/// rung from zero.
pub open spec fn first_gap(
    table: Map<(VideoConfig, usize), usize>,
    ladder: Seq<VideoConfig>,
    frames: usize,
    level: int,
    frame: usize,
) -> bool {
    &&& 0 <= level < ladder.len()
    &&& frame < frames
    &&& !table.contains_key((ladder[level], frame))
    &&& dense(table, ladder.take(level), frames)
    &&& forall|f: usize| f < frame ==> #[trigger] table.contains_key((ladder[level], f))
}

/// Whether the first cell that the table lacks is that of configuration `c`
/// at `frame`.
pub open spec fn missing_first(
    table: Map<(VideoConfig, usize), usize>,
    ladder: Seq<VideoConfig>,
    frames: usize,
    c: VideoConfig,
    frame: usize,
) -> bool {
    exists|level: int|
        #[trigger] first_gap(table, ladder, frames, level, frame) && c == ladder[level]
}

/// The cursor after one frame: the next index, and zero again once `frames`
/// is reached.
pub open spec fn next_cursor(cursor: usize, frames: usize) -> usize {
    if cursor + 1 >= frames {
        0
    } else {
        (cursor + 1) as usize
    }
}

/// The cursor after `count` frames.
pub open spec fn cursor_after(cursor: usize, frames: usize, count: nat) -> usize
    decreases count,
{
    if count == 0 {
        cursor
    } else {
        next_cursor(cursor_after(cursor, frames, (count - 1) as nat), frames)
    }
}

/// What a frame source is, seen from outside.
pub struct SourceView {
    /// The size in bytes of each frame under each configuration.
    pub table: Map<(VideoConfig, usize), usize>,
    /// The ladder of configurations.
    pub ladder: Seq<VideoConfig>,
    /// The number of frames in one cycle.
    pub frames: usize,
    /// The index of the frame that comes next.
    pub cursor: usize,
    /// The rung of the configuration in use.
    pub level: usize,
}

impl SourceView {
    /// The configuration in use.
    pub open spec fn config(self) -> VideoConfig {
        self.ladder[self.level as int]
    }

    /// Whether the table has a size for the frame that comes next.
    pub open spec fn has_frame(self) -> bool {
        self.table.contains_key((self.config(), self.cursor))
    }

    pub open spec fn wf(self) -> bool {
        &&& 1 <= self.ladder.len() <= usize::MAX
        &&& self.ladder.no_duplicates()
        &&& self.level < self.ladder.len()
        &&& self.cursor == 0 || self.cursor < self.frames
        &&& dense(self.table, self.ladder, self.frames)
    }
}

type FrameKey = (usize, usize, usize, usize);

spec fn key_of(c: VideoConfig, frame: usize) -> FrameKey {
    (c.width, c.skip, c.quant, frame)
}

spec fn lifted(m: Map<FrameKey, usize>) -> Map<(VideoConfig, usize), usize> {
    Map::new(
        |k: (VideoConfig, usize)| m.contains_key(key_of(k.0, k.1)),
        |k: (VideoConfig, usize)| m[key_of(k.0, k.1)],
    )
}

proof fn lemma_lifted_insert(m: Map<FrameKey, usize>, c: VideoConfig, frame: usize, bytes: usize)
    ensures
        lifted(m.insert(key_of(c, frame), bytes)) == lifted(m).insert((c, frame), bytes),
{
    let a = lifted(m.insert(key_of(c, frame), bytes));
    let b = lifted(m).insert((c, frame), bytes);
    assert forall|k: (VideoConfig, usize)| a.contains_key(k) == b.contains_key(k) && (
    a.contains_key(k) ==> a[k] == b[k]) by {
        if k != (c, frame) {
            assert(key_of(k.0, k.1) != key_of(c, frame));
        }
    }
    assert(a =~= b);
}

proof fn lemma_table_step(records: Seq<FrameRecord>, i: int)
    requires
        0 <= i < records.len(),
    ensures
        table_of(records.take(i + 1)) == table_of(records.take(i)).insert(
            (records[i].config, records[i].frame),
            records[i].bytes,
        ),
        frames_of(records.take(i + 1)) == if records[i].frame > frames_of(records.take(i)) {
            records[i].frame
        } else {
            frames_of(records.take(i))
        },
{
    assert(records.take(i + 1).drop_last() == records.take(i));
    assert(records.take(i + 1).last() == records[i]);
}

/// The frame source: for the configuration in use it hands out the size of
/// one frame after another, and starts over when the frames run out.
pub struct VideoSource {
    map: BTreeMap<FrameKey, usize>,
    frame: usize,
    num: usize,
    level: usize,
    profile: Profile,
}

impl View for VideoSource {
    type V = SourceView;

    closed spec fn view(&self) -> SourceView {
        SourceView {
            table: lifted(self.map@),
            ladder: self.profile@,
            frames: self.num,
            cursor: self.frame,
            level: self.level,
        }
    }
}

impl VideoSource {
    pub open spec fn wf(&self) -> bool {
        self@.wf()
    }

    /// The source over the table that `records` make, on the ladder
    /// `profile`. It starts at frame zero on the lowest rung, the initial end
    /// of the ladder.
    ///
    /// The table must be dense: a size for every configuration of the ladder
    /// at every frame index below the largest one among the rows. Otherwise
    /// the error names the first cell that is missing.
    pub fn new(records: &[FrameRecord], profile: Profile) -> (r: Result<VideoSource, LoadError>)
        requires
            profile.wf(),
        ensures
            r.is_ok() <==> dense(table_of(records@), profile@, frames_of(records@)),
            r matches Ok(source) ==> source.wf() && source@ == (SourceView {
                table: table_of(records@),
                ladder: profile@,
                frames: frames_of(records@),
                cursor: 0,
                level: 0,
            }),
            r matches Err(e) ==> e matches LoadError::MissingFrame(c, frame) && missing_first(
                table_of(records@),
                profile@,
                frames_of(records@),
                c,
                frame,
            ),
    {
        let mut map: BTreeMap<FrameKey, usize> = BTreeMap::new();
        let mut num: usize = 0;
        let mut i: usize = 0;
        assert(lifted(map@) =~= table_of(records@.take(0)));
        while i < records.len()
            invariant
                0 <= i <= records.len(),
                lifted(map@) == table_of(records@.take(i as int)),
                num == frames_of(records@.take(i as int)),
            decreases records.len() - i,
        {
            let record = records[i];
            proof {
                lemma_table_step(records@, i as int);
                lemma_lifted_insert(map@, record.config, record.frame, record.bytes);
            }
            map.insert(
                (record.config.width, record.config.skip, record.config.quant, record.frame),
                record.bytes,
            );
            if record.frame > num {
                num = record.frame;
            }
            i += 1;
        }
        assert(records@.take(records@.len() as int) == records@);
        let ghost table = table_of(records@);
        let levels = profile.len();
        let mut level: usize = 0;
        while level < levels
            invariant
                0 <= level <= levels,
                levels == profile@.len(),
                lifted(map@) == table,
                table == table_of(records@),
                num == frames_of(records@),
                dense(table, profile@.take(level as int), num),
            decreases levels - level,
        {
            let config = profile.nth(level);
            let mut frame: usize = 0;
            while frame < num
                invariant
                    0 <= frame <= num,
                    level < levels,
                    levels == profile@.len(),
                    config == profile@[level as int],
                    lifted(map@) == table,
                    table == table_of(records@),
                    num == frames_of(records@),
                    dense(table, profile@.take(level as int), num),
                    forall|f: usize| f < frame ==> #[trigger] table.contains_key((config, f)),
                decreases num - frame,
            {
                let found = map.contains_key(&(config.width, config.skip, config.quant, frame));
                assert(found == table.contains_key((config, frame))) by {
                    assert(found == map@.contains_key(key_of(config, frame)));
                }
                if !found {
                    proof {
                        assert(first_gap(table, profile@, num, level as int, frame));
                        assert(missing_first(table, profile@, num, config, frame));
                    }
                    return Err(LoadError::MissingFrame(config, frame));
                }
                frame += 1;
            }
            proof {
                let shorter = profile@.take(level as int);
                let longer = profile@.take(level + 1);
                assert forall|l: int, f: usize|
                    0 <= l < longer.len() && f < num implies #[trigger] table.contains_key(
                    (longer[l], f),
                ) by {
                    if l < level {
                        assert(table.contains_key((shorter[l], f)));
                    }
                }
            }
            level += 1;
        }
        assert(profile@.take(levels as int) == profile@);
        Ok(VideoSource { map, frame: 0, num, level: 0, profile })
    }

    /// The rung of the configuration in use.
    pub fn level(&self) -> (level: usize)
        ensures
            level == self@.level,
    {
        self.level
    }

    /// The configuration in use.
    pub fn config(&self) -> (c: VideoConfig)
        requires
            self.wf(),
        ensures
            c == self@.config(),
    {
        self.profile.nth(self.level)
    }

    /// The index of the frame that comes next.
    pub fn cursor(&self) -> (cursor: usize)
        ensures
            cursor == self@.cursor,
    {
        self.frame
    }

    /// The number of frames in one cycle.
    pub fn frames(&self) -> (frames: usize)
        ensures
            frames == self@.frames,
    {
        self.num
    }

    /// The ladder that the source moves on.
    pub fn profile(&self) -> (profile: &Profile)
        ensures
            profile@ == self@.ladder,
    {
        &self.profile
    }

    /// The size of the frame that comes next, if the table has it. In a
    /// source with at least one frame it always has.
    pub fn peek_frame(&self) -> (size: Option<usize>)
        requires
            self.wf(),
        ensures
            size.is_some() <==> self@.has_frame(),
            size matches Some(bytes) ==> bytes == self@.table[(self@.config(), self@.cursor)],
            self@.frames > 0 ==> size.is_some(),
    {
        let config = self.profile.nth(self.level);
        let found = self.map.get(&(config.width, config.skip, config.quant, self.frame));
        assert(self.map@.contains_key(key_of(config, self.frame)) == self@.table.contains_key(
            (config, self.frame),
        ));
        match found {
            Some(bytes) => Some(*bytes),
            None => None,
        }
    }

    /// The size of the next frame under the configuration in use. The cursor
    /// moves on by one frame and starts over after the last.
    pub fn next_frame(&mut self) -> (size: usize)
        requires
            old(self).wf(),
            old(self)@.has_frame(),
        ensures
            final(self).wf(),
            size == old(self)@.table[(old(self)@.config(), old(self)@.cursor)],
            final(self)@ == (SourceView {
                cursor: next_cursor(old(self)@.cursor, old(self)@.frames),
                ..old(self)@
            }),
    {
        let size = match self.peek_frame() {
            Some(bytes) => bytes,
            None => vstd::pervasive::unreached(),
        };
        self.frame += 1;
        if self.frame >= self.num {
            self.frame = 0;
        }
        size
    }

    /// Switches to the configuration at rung `level`. The cursor stays where
    /// it is, so that the stream goes on at the same frame.
    pub fn adapt(&mut self, level: usize)
        requires
            old(self).wf(),
            level < old(self)@.ladder.len(),
        ensures
            final(self).wf(),
            final(self)@ == (SourceView { level: level, ..old(self)@ }),
    {
        self.level = level;
    }
}

/// Whether the cursor, starting from `cursor`, stands at `index` before one
/// of the next `frames` frames.
pub open spec fn visits(cursor: usize, frames: usize, index: usize) -> bool {
    exists|count: nat| count < frames && #[trigger] cursor_after(cursor, frames, count) == index
}

/// Without a change of `frames`, the cursor after `count` frames is `count`
/// places further round the cycle.
pub proof fn lemma_cursor_after(cursor: usize, frames: usize, count: nat)
    requires
        cursor < frames,
    ensures
        cursor_after(cursor, frames, count) == (cursor + count) % (frames as int),
    decreases count,
{
    if count == 0 {
        vstd::arithmetic::div_mod::lemma_small_mod(cursor as nat, frames as nat);
    } else {
        lemma_cursor_after(cursor, frames, (count - 1) as nat);
        crate::modular::lemma_mod_step(cursor + count - 1, frames as int);
    }
}

/// Over any `frames` frames in a row the cursor comes by every frame index
/// exactly once, and then stands where it started.
pub proof fn law_frame_cycle(cursor: usize, frames: usize)
    requires
        cursor < frames,
    ensures
        forall|index: usize| index < frames ==> #[trigger] visits(cursor, frames, index),
        forall|a: nat, b: nat|
            a < b < frames ==> cursor_after(cursor, frames, a) != cursor_after(cursor, frames, b),
        cursor_after(cursor, frames, frames as nat) == cursor,
{
    let n = frames as int;
    assert forall|index: usize| index < frames implies #[trigger] visits(
        cursor,
        frames,
        index,
    ) by {
        let count: nat = if index >= cursor {
            (index - cursor) as nat
        } else {
            (index + frames - cursor) as nat
        };
        lemma_cursor_after(cursor, frames, count);
        if index >= cursor {
            vstd::arithmetic::div_mod::lemma_small_mod(index as nat, frames as nat);
        } else {
            vstd::arithmetic::div_mod::lemma_mod_add_multiples_vanish(index as int, n);
            vstd::arithmetic::div_mod::lemma_small_mod(index as nat, frames as nat);
            assert(cursor + count == n + index);
        }
        assert(cursor_after(cursor, frames, count) == index);
    }
    assert forall|a: nat, b: nat| a < b < frames implies cursor_after(cursor, frames, a)
        != cursor_after(cursor, frames, b) by {
        lemma_cursor_after(cursor, frames, a);
        lemma_cursor_after(cursor, frames, b);
        crate::modular::lemma_mod_shift_distinct(cursor + a, b - a, n);
    }
    lemma_cursor_after(cursor, frames, frames as nat);
    vstd::arithmetic::div_mod::lemma_mod_add_multiples_vanish(cursor as int, n);
    vstd::arithmetic::div_mod::lemma_small_mod(cursor as nat, frames as nat);
    assert(cursor + frames == n + cursor);
}

} // verus!
