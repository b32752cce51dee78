//! Animation: settings that move from one keyframe to the next in equal
//! steps, and one fresh pass over the same image for every step.

use vstd::prelude::*;
use crate::grid::Image;
use crate::interpolation::{
    interpolate,
    interpolate_byte,
    interpolated,
    lemma_last_step_is_target,
};
use crate::settings::Threshold;
use crate::slant::Tangent;
use crate::sort_algos::{AvailableSortAlgos, SpanSortConfig, SpanSortMethod};
use crate::sorters::{AngledSorter, AvailableLineAlgos, Sorter};

verus! {

/// Settings that can be moved toward other settings of their kind.
pub trait Animateable: Sized {
    /// These settings after `step` of `steps` equal steps toward `target`.
    spec fn lerped(&self, target: &Self, step: u32, steps: u32) -> Self;

    /// Moves these settings to where they are after `step` of `steps`
    /// equal steps toward `target`.
    fn lerp(&mut self, target: &Self, step: u32, steps: u32)
        ensures
            *final(self) == old(self).lerped(target, step, steps),
    ;
}

impl Animateable for SpanSortMethod {
    /// The two ends of the threshold move; the characteristics and the
    /// inversion stay as they are.
    open spec fn lerped(&self, target: &Self, step: u32, steps: u32) -> Self {
        SpanSortMethod {
            config: SpanSortConfig {
                threshold: Threshold {
                    min: interpolated(
                        self.config.threshold.min as int,
                        target.config.threshold.min as int,
                        step as int,
                        steps as int,
                    ) as u8,
                    max: interpolated(
                        self.config.threshold.max as int,
                        target.config.threshold.max as int,
                        step as int,
                        steps as int,
                    ) as u8,
                    threshold_type: self.config.threshold.threshold_type,
                    invert: self.config.threshold.invert,
                },
                sorting_method: self.config.sorting_method,
            },
        }
    }

    fn lerp(&mut self, target: &Self, step: u32, steps: u32) {
        let new_start = interpolate_byte(
            self.config.threshold.min,
            target.config.threshold.min,
            step,
            steps,
        );
        let new_end = interpolate_byte(
            self.config.threshold.max,
            target.config.threshold.max,
            step,
            steps,
        );
        self.config.threshold.min = new_start;
        self.config.threshold.max = new_end;
    }
}

impl Animateable for AvailableSortAlgos {
    open spec fn lerped(&self, target: &Self, step: u32, steps: u32) -> Self {
        match (self, target) {
            (AvailableSortAlgos::SpanSort(sort_algo), AvailableSortAlgos::SpanSort(target)) => {
                AvailableSortAlgos::SpanSort(sort_algo.lerped(target, step, steps))
            },
        }
    }

    fn lerp(&mut self, target: &Self, step: u32, steps: u32) {
        match (*self, target) {
            (AvailableSortAlgos::SpanSort(sort_algo), AvailableSortAlgos::SpanSort(target)) => {
                let mut moved = sort_algo;
                moved.lerp(target, step, steps);
                *self = AvailableSortAlgos::SpanSort(moved);
            },
        }
    }
}

impl Animateable for AngledSorter {
    open spec fn lerped(&self, target: &Self, step: u32, steps: u32) -> Self {
        AngledSorter {
            angle: interpolated(self.angle as int, target.angle as int, step as int, steps as int)
                as u32,
        }
    }

    fn lerp(&mut self, target: &AngledSorter, step: u32, steps: u32) {
        self.angle = interpolate(self.angle, target.angle, step, steps);
    }
}

impl Animateable for AvailableLineAlgos {
    /// Only two angled choices move toward each other; every other pair
    /// leaves these settings as they are.
    open spec fn lerped(&self, target: &Self, step: u32, steps: u32) -> Self {
        match (self, target) {
            (AvailableLineAlgos::Angled(line_alg), AvailableLineAlgos::Angled(target)) => {
                AvailableLineAlgos::Angled(line_alg.lerped(target, step, steps))
            },
            _ => *self,
        }
    }

    fn lerp(&mut self, target: &Self, step: u32, steps: u32) {
        match (*self, target) {
            (AvailableLineAlgos::Angled(line_alg), AvailableLineAlgos::Angled(target)) => {
                let mut moved = line_alg;
                moved.lerp(target, step, steps);
                *self = AvailableLineAlgos::Angled(moved);
            },
            _ => {},
        }
    }
}

/// The settings of one pass, anchored at a point of the timeline.
#[derive(Clone, Copy, Debug)]
pub struct Keyframe {
    pub line_algo: AvailableLineAlgos,
    pub sort_algo: AvailableSortAlgos,
}

impl Keyframe {
    /// Two keyframes can be joined by steps when they name the same way of
    /// laying lines and the same sorting method.
    pub open spec fn joins(self, target: Keyframe) -> bool {
        self.line_algo.same_kind(target.line_algo) && self.sort_algo.same_kind(target.sort_algo)
    }

    /// These settings after `step` of `steps` equal steps toward `target`.
    pub open spec fn lerped(self, target: Keyframe, step: u32, steps: u32) -> Keyframe {
        Keyframe {
            line_algo: self.line_algo.lerped(&target.line_algo, step, steps),
            sort_algo: self.sort_algo.lerped(&target.sort_algo, step, steps),
        }
    }

    /// Tests whether two keyframes can be joined by steps.
    pub fn can_join(&self, target: &Keyframe) -> (joined: bool)
        ensures
            joined == self.joins(*target),
    {
        self.line_algo == target.line_algo && self.sort_algo == target.sort_algo
    }

    /// Computes these settings after `step` of `steps` equal steps toward
    /// `target`.
    pub fn frame_at(&self, target: &Keyframe, step: u32, steps: u32) -> (frame: Keyframe)
        ensures
            frame == self.lerped(*target, step, steps),
    {
        let mut line_algo = self.line_algo;
        let mut sort_algo = self.sort_algo;
        line_algo.lerp(&target.line_algo, step, steps);
        sort_algo.lerp(&target.sort_algo, step, steps);
        Keyframe { line_algo, sort_algo }
    }
}

/// The frames that lead from `start` to `target`: `steps` of them where
/// the two can be joined, the last of which has reached `target`, and none
/// where they cannot.
pub open spec fn frames_between(start: Keyframe, target: Keyframe, steps: u32) -> Seq<Keyframe> {
    if start.joins(target) {
        Seq::new(steps as nat, |i: int| start.lerped(target, (i + 1) as u32, steps))
    } else {
        Seq::empty()
    }
}

/// The frames of the first `count` pairs of neighbouring keyframes, pair
/// after pair.
pub open spec fn frames_of_pairs(keyframes: Seq<Keyframe>, steps: u32, count: int) -> Seq<Keyframe>
    decreases count,
{
    if count <= 0 {
        Seq::empty()
    } else {
        frames_of_pairs(keyframes, steps, count - 1) + frames_between(
            keyframes[count - 1],
            keyframes[count],
            steps,
        )
    }
}

/// All frames of a timeline: those of every pair of neighbouring keyframes.
pub open spec fn frames_of_timeline(keyframes: Seq<Keyframe>, steps: u32) -> Seq<Keyframe> {
    frames_of_pairs(keyframes, steps, keyframes.len() - 1)
}

/// In the last frame between two keyframes, every number that moves has
/// the value it has in the target: both ends of the threshold, and the
/// angle of angled lines.
pub proof fn lemma_last_frame_is_target(start: Keyframe, target: Keyframe, steps: u32)
    requires
        start.joins(target),
        steps > 0,
    ensures
        frames_between(start, target, steps).len() == steps,
        ({
            let last = frames_between(start, target, steps)[steps - 1];
            &&& last.sort_algo->SpanSort_0.config.threshold.min
                == target.sort_algo->SpanSort_0.config.threshold.min
            &&& last.sort_algo->SpanSort_0.config.threshold.max
                == target.sort_algo->SpanSort_0.config.threshold.max
            &&& target.line_algo is Angled ==> last.line_algo->Angled_0.angle
                == target.line_algo->Angled_0.angle
        }),
{
    let from = start.sort_algo->SpanSort_0.config.threshold;
    let to = target.sort_algo->SpanSort_0.config.threshold;
    lemma_last_step_is_target(from.min as int, to.min as int, steps as int);
    lemma_last_step_is_target(from.max as int, to.max as int, steps as int);
    if target.line_algo is Angled {
        lemma_last_step_is_target(
            start.line_algo->Angled_0.angle as int,
            target.line_algo->Angled_0.angle as int,
            steps as int,
        );
    }
}

/// Computes the frames that lead from `start` to `target`.
pub fn interpolate_pair(start: &Keyframe, target: &Keyframe, steps: u32) -> (frames: Vec<Keyframe>)
    ensures
        frames@ == frames_between(*start, *target, steps),
{
    let mut frames: Vec<Keyframe> = Vec::new();
    if start.can_join(target) {
        let mut step: u32 = 0;
        while step < steps
            invariant
                step <= steps,
                frames.len() == step,
                forall|i: int|
                    0 <= i < step ==> #[trigger] frames[i] == start.lerped(
                        *target,
                        (i + 1) as u32,
                        steps,
                    ),
            decreases steps - step,
        {
            step += 1;
            frames.push(start.frame_at(target, step, steps));
        }
    }
    frames
}

/// Computes all frames of a timeline.
pub fn interpolate_timeline(keyframes: &Vec<Keyframe>, steps: u32) -> (frames: Vec<Keyframe>)
    ensures
        frames@ == frames_of_timeline(keyframes@, steps),
{
    let mut frames: Vec<Keyframe> = Vec::new();
    if keyframes.len() < 2 {
        return frames;
    }
    let mut pair: usize = 0;
    while pair < keyframes.len() - 1
        invariant
            pair <= keyframes.len() - 1,
            frames@ == frames_of_pairs(keyframes@, steps, pair as int),
        decreases keyframes.len() - pair,
    {
        let mut between = interpolate_pair(&keyframes[pair], &keyframes[pair + 1], steps);
        frames.append(&mut between);
        pair += 1;
    }
    frames
}

/// Runs the pass of one frame on a fresh copy of `base`, which stays as it
/// is: no frame builds on the outcome of another.
pub fn render_frame(base: &Image, frame: &Keyframe, tangent: Tangent) -> (rendered: Image)
    requires
        base.wf(),
    ensures
        rendered.wf(),
        frame.line_algo.sorts_image(base@, rendered@, frame.sort_algo, tangent),
{
    let mut rendered = base.duplicate();
    frame.line_algo.sort_image(&mut rendered, frame.sort_algo, tangent);
    rendered
}

} // verus!
