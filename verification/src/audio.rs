//! The peer's sound, kept for a consumer that polls.

use std::collections::VecDeque;
use vstd::prelude::*;

verus! {

/// The most samples that are kept: about two seconds of stereo sound at 48 kHz.
pub const MAX_HEADLESS_AUDIO_SAMPLES: usize = 48_000 * 2 * 2;

/// The negotiated format until it is taken, and the interleaved samples that wait, of any sample
/// type.
pub struct HeadlessAudioState<T> {
    format: Option<(u32, u16)>,
    pcm: VecDeque<T>,
}

/// What the audio state is.
pub struct AudioStateView<T> {
    pub format: Option<(u32, u16)>,
    pub pcm: Seq<T>,
}

impl<T> View for HeadlessAudioState<T> {
    type V = AudioStateView<T>;

    closed spec fn view(&self) -> AudioStateView<T> {
        AudioStateView { format: self.format, pcm: self.pcm@ }
    }
}

/// The newest samples, as many as are kept.
pub open spec fn newest<T>(samples: Seq<T>) -> Seq<T> {
    if samples.len() > MAX_HEADLESS_AUDIO_SAMPLES {
        samples.skip(samples.len() - MAX_HEADLESS_AUDIO_SAMPLES)
    } else {
        samples
    }
}

impl<T> AudioStateView<T> {
    /// Never more samples than are kept.
    pub open spec fn wf(self) -> bool {
        self.pcm.len() <= MAX_HEADLESS_AUDIO_SAMPLES
    }

    /// Samples came: the oldest ones make room.
    pub open spec fn pushed(self, samples: Seq<T>) -> AudioStateView<T> {
        AudioStateView { pcm: newest(self.pcm + samples), ..self }
    }

    /// How many samples a call that asks for `max_samples` takes.
    pub open spec fn available(self, max_samples: usize) -> nat {
        if max_samples < self.pcm.len() {
            max_samples as nat
        } else {
            self.pcm.len()
        }
    }
}

impl<T> HeadlessAudioState<T> {
    pub open spec fn wf(&self) -> bool {
        self@.wf()
    }

    pub fn new() -> (state: HeadlessAudioState<T>)
        ensures
            state@ == (AudioStateView { format: None, pcm: Seq::<T>::empty() }),
            state.wf(),
    {
        HeadlessAudioState { format: None, pcm: VecDeque::new() }
    }
}

/// Notes the format that was negotiated with the peer.
pub fn push_headless_audio_format<T>(
    state: &mut HeadlessAudioState<T>,
    sample_rate: u32,
    channels: u16,
)
    ensures
        final(state)@ == (AudioStateView { format: Some((sample_rate, channels)), ..old(state)@ }),
        old(state).wf() ==> final(state).wf(),
{
    state.format = Some((sample_rate, channels));
}

/// Adds decoded samples; on overflow the oldest ones are dropped.
pub fn push_headless_audio_pcm<T: Copy>(state: &mut HeadlessAudioState<T>, samples: &[T])
    requires
        old(state).wf(),
    ensures
        final(state)@ == old(state)@.pushed(samples@),
        final(state).wf(),
{
    let mut i: usize = 0;
    let ghost before = state@;
    assert(before.pcm + samples@.take(0) =~= before.pcm);
    while i < samples.len()
        invariant
            i <= samples.len(),
            before == old(state)@,
            state@.format == before.format,
            state@.pcm == newest(before.pcm + samples@.take(i as int)),
        decreases samples.len() - i,
    {
        let ghost all = before.pcm + samples@.take(i as int);
        state.pcm.push_back(samples[i]);
        assert(before.pcm + samples@.take(i + 1) =~= all.push(samples@[i as int]));
        if state.pcm.len() > MAX_HEADLESS_AUDIO_SAMPLES {
            state.pcm.pop_front();
        }
        assert(state@.pcm =~= newest(all.push(samples@[i as int])));
        i += 1;
    }
    assert(samples@.take(samples@.len() as int) =~= samples@);
}

/// Takes the negotiated format: once after it was set, then nothing until it is set again.
pub fn take_headless_audio_format<T>(state: &mut HeadlessAudioState<T>) -> (format: Option<
    (u32, u16),
>)
    ensures
        format == old(state)@.format,
        final(state)@ == (AudioStateView { format: None, ..old(state)@ }),
        old(state).wf() ==> final(state).wf(),
{
    state.format.take()
}

/// Takes up to `max_samples` samples, the oldest first.
pub fn take_headless_audio_pcm<T>(state: &mut HeadlessAudioState<T>, max_samples: usize) -> (pcm:
    Vec<T>)
    ensures
        pcm@ == old(state)@.pcm.take(old(state)@.available(max_samples) as int),
        final(state)@ == (AudioStateView {
            pcm: old(state)@.pcm.skip(old(state)@.available(max_samples) as int),
            ..old(state)@
        }),
        old(state).wf() ==> final(state).wf(),
{
    let mut pcm: Vec<T> = Vec::new();
    let ghost before = state@.pcm;
    assert(before.skip(0) =~= before);
    assert(before.take(0) =~= Seq::empty());
    while pcm.len() < max_samples
        invariant_except_break
            pcm@.len() <= max_samples,
            pcm@.len() <= before.len(),
            state@.format == old(state)@.format,
            before == old(state)@.pcm,
            pcm@ == before.take(pcm@.len() as int),
            state@.pcm == before.skip(pcm@.len() as int),
        ensures
            state@.format == old(state)@.format,
            before == old(state)@.pcm,
            pcm@.len() == old(state)@.available(max_samples),
            pcm@ == before.take(pcm@.len() as int),
            state@.pcm == before.skip(pcm@.len() as int),
        decreases max_samples - pcm@.len(),
    {
        let ghost n = pcm@.len() as int;
        match state.pcm.pop_front() {
            Some(sample) => {
                pcm.push(sample);
                assert(pcm@ =~= before.take(n + 1));
                assert(state@.pcm =~= before.skip(n + 1));
            },
            None => {
                break ;
            },
        }
    }
    pcm
}

/// Samples come out in the order in which they went in: what a call takes, followed by what stays,
/// is what was there.
pub proof fn lemma_pcm_first_in_first_out<T>(state: AudioStateView<T>, max_samples: usize)
    ensures
        state.pcm.take(state.available(max_samples) as int) + state.pcm.skip(
            state.available(max_samples) as int,
        ) == state.pcm,
{
    assert(state.pcm.take(state.available(max_samples) as int) + state.pcm.skip(
        state.available(max_samples) as int,
    ) =~= state.pcm);
}

/// Overflow drops from the front only: what is kept ends with the samples that came last.
pub proof fn lemma_pushed_keeps_newest<T>(state: AudioStateView<T>, samples: Seq<T>)
    requires
        state.wf(),
        samples.len() <= MAX_HEADLESS_AUDIO_SAMPLES,
    ensures
        state.pushed(samples).wf(),
        samples.len() <= state.pushed(samples).pcm.len(),
        state.pushed(samples).pcm.skip(state.pushed(samples).pcm.len() - samples.len()) == samples,
{
    assert(state.pushed(samples).pcm.skip(state.pushed(samples).pcm.len() - samples.len())
        =~= samples);
}

/// Up to 192000 samples wait: about two seconds of stereo sound. They stay as they were and the new
/// ones follow; of more than that, only the newest 192000 stay, in their order. The format is left
/// alone.
pub proof fn lemma_pushed_samples<T>(state: AudioStateView<T>, samples: Seq<T>, i: int)
    ensures
        state.pushed(samples).format == state.format,
        state.pcm.len() + samples.len() <= 192000 ==> state.pushed(samples).pcm == state.pcm
            + samples,
        state.pcm.len() + samples.len() > 192000 ==> state.pushed(samples).pcm.len() == 192000,
        state.pcm.len() + samples.len() > 192000 && 0 <= i < 192000 ==> state.pushed(samples).pcm[i]
            == (state.pcm + samples)[state.pcm.len() + samples.len() - 192000 + i],
{
}

/// A call takes as many samples as it asks for, or all of them where fewer wait.
pub proof fn lemma_available<T>(state: AudioStateView<T>, max_samples: usize)
    ensures
        state.available(max_samples) <= max_samples,
        state.available(max_samples) <= state.pcm.len(),
        state.available(max_samples) == max_samples || state.available(max_samples)
            == state.pcm.len(),
{
}

}
