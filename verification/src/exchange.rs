//! A read as a whole: the device's answers as a sequence, and what the reader
//! makes of them.
//!
//! The laws here say what [`ReadRTC::advance`] amounts to over many steps.
//! A read is a series of rounds, each a wait for the update flag to clear
//! followed by one sample. It ends with the first round whose sample repeats
//! that of the round before it, and with one reading of the mode bits.

use crate::reader::{Progress, ReadRTC};
use crate::registers::{
    update_in_progress, Sample, REG_DAY, REG_HOURS, REG_MINUTES, REG_MONTH, REG_SECONDS,
    REG_STATUS_A, REG_STATUS_B, REG_YEAR,
};
use crate::time::Time;
use vstd::prelude::*;

verus! {

/// One round of a read as the device answered it: status register A with the
/// update flag set, any number of times; status register A with the flag
/// clear; then the time registers.
pub struct Round {
    pub busy: Seq<u8>,
    pub idle: u8,
    pub sample: Sample,
}

impl ReadRTC {
    /// The state after the device answered the wanted registers, one after
    /// the other, with `bytes`.
    pub open spec fn run(self, progress: Progress, bytes: Seq<u8>) -> Progress
        decreases bytes.len(),
    {
        if bytes.len() == 0 {
            progress
        } else {
            self.next(self.run(progress, bytes.drop_last()), bytes.last())
        }
    }

    /// The time registers of a sample in the order in which they are read.
    pub open spec fn sample_bytes(self, sample: Sample) -> Seq<u8> {
        let fixed = Seq::<u8>::empty().push(sample.second).push(sample.minute).push(
            sample.hour,
        ).push(sample.day).push(sample.month).push(sample.year);
        if self.has_century() {
            fixed.push(sample.century)
        } else {
            fixed
        }
    }

    /// Whether a round is one that the device can answer to this reader: the
    /// flag is set in every busy reading and clear in the idle one, and a
    /// device without a century register reports no century.
    pub open spec fn admits(self, round: Round) -> bool {
        &&& forall|i: int| 0 <= i < round.busy.len() ==> update_in_progress(#[trigger] round.busy[i])
        &&& !update_in_progress(round.idle)
        &&& self.has_century() || round.sample.century == 0
    }

    /// The device's answers during one round.
    pub open spec fn round_bytes(self, round: Round) -> Seq<u8> {
        round.busy.push(round.idle) + self.sample_bytes(round.sample)
    }

    /// The device's answers during a series of rounds.
    pub open spec fn rounds_bytes(self, rounds: Seq<Round>) -> Seq<u8>
        decreases rounds.len(),
    {
        if rounds.len() == 0 {
            Seq::empty()
        } else {
            self.rounds_bytes(rounds.drop_last()) + self.round_bytes(rounds.last())
        }
    }

    /// Whether no round of a series repeats the sample of the round before it.
    pub open spec fn unsettled(rounds: Seq<Round>) -> bool {
        forall|i: int| 0 < i < rounds.len() ==> (#[trigger] rounds[i]).sample != rounds[i - 1].sample
    }

    /// The registers that the reader asks for while the device answers with
    /// `bytes`: entry `i` is what it wants after the first `i` answers.
    pub open spec fn asked(self, progress: Progress, bytes: Seq<u8>) -> Seq<Option<u8>> {
        Seq::new(bytes.len(), |i: int| self.wanted(self.run(progress, bytes.take(i))))
    }

    /// The registers of one sample in the order in which they are read.
    pub open spec fn sample_registers(self) -> Seq<Option<u8>> {
        let fixed = Seq::<Option<u8>>::empty().push(Some(REG_SECONDS)).push(Some(REG_MINUTES)).push(
            Some(REG_HOURS),
        ).push(Some(REG_DAY)).push(Some(REG_MONTH)).push(Some(REG_YEAR));
        if self.has_century() {
            fixed.push(Some(self.century_register()))
        } else {
            fixed
        }
    }

    /// Feeds a recorded exchange to a fresh read: `answers` are the bytes that
    /// the device returned, in order. Gives the time if they suffice to finish
    /// the read; answers beyond that point are ignored.
    pub fn replay(&self, answers: &[u8]) -> (r: Option<Time>)
        ensures
            r == self.run(Self::initial(), answers@).outcome(),
    {
        let mut progress = self.start();
        let mut i: usize = 0;
        while i < answers.len()
            invariant
                i <= answers.len(),
                progress == self.run(Self::initial(), answers@.take(i as int)),
            decreases answers.len() - i,
        {
            proof {
                let longer = answers@.take(i + 1);
                assert(longer.drop_last() =~= answers@.take(i as int));
                assert(longer.last() == answers@[i as int]);
            }
            progress = self.advance(progress, answers[i]);
            i += 1;
        }
        proof {
            assert(answers@.take(i as int) =~= answers@);
        }
        progress.time()
    }

    /// One more answer is one more step.
    pub proof fn lemma_run_push(self, progress: Progress, bytes: Seq<u8>, byte: u8)
        ensures
            self.run(progress, bytes.push(byte)) == self.next(self.run(progress, bytes), byte),
    {
        let longer = bytes.push(byte);
        assert(longer.drop_last() =~= bytes);
        assert(longer.last() == byte);
    }

    /// Answers can be fed in two parts.
    pub proof fn lemma_run_concat(self, progress: Progress, first: Seq<u8>, second: Seq<u8>)
        ensures
            self.run(progress, first + second) == self.run(self.run(progress, first), second),
        decreases second.len(),
    {
        if second.len() == 0 {
            assert(first + second =~= first);
        } else {
            let whole = first + second;
            assert(whole.drop_last() =~= first + second.drop_last());
            assert(whole.last() == second.last());
            self.lemma_run_concat(progress, first, second.drop_last());
        }
    }

    /// A finished read stays finished, whatever else the device says.
    pub proof fn lemma_finished_is_final(self, time: Time, bytes: Seq<u8>)
        ensures
            self.run(Progress::Finished { time }, bytes) == (Progress::Finished { time }),
        decreases bytes.len(),
    {
        if bytes.len() > 0 {
            self.lemma_finished_is_final(time, bytes.drop_last());
        }
    }

    /// The reader takes up a sample only on a reading of status register A in
    /// which the update flag is clear. While the flag is set it stays where it
    /// is and asks for status register A again.
    pub proof fn lemma_update_flag_gates_sampling(self, progress: Progress, byte: u8)
        ensures
            progress is Polling && update_in_progress(byte) ==> {
                &&& self.next(progress, byte) == progress
                &&& self.wanted(self.next(progress, byte)) == Some(REG_STATUS_A)
            },
            self.next(progress, byte) matches Progress::Sampling { position, .. } && position == 0
                ==> progress is Polling && !update_in_progress(byte),
            self.wanted(Self::initial()) == Some(REG_STATUS_A),
    {
    }

    /// As long as the update flag is set the reader goes on polling.
    pub proof fn lemma_busy(self, previous: Option<Sample>, busy: Seq<u8>)
        requires
            forall|i: int| 0 <= i < busy.len() ==> update_in_progress(#[trigger] busy[i]),
        ensures
            self.run(Progress::Polling { previous }, busy) == (Progress::Polling { previous }),
        decreases busy.len(),
    {
        if busy.len() > 0 {
            self.lemma_busy(previous, busy.drop_last());
        }
    }

    /// Reading the registers of a sample in order yields that sample, which
    /// settles the read if it repeats the previous one and otherwise becomes
    /// the one to compare the next with.
    pub proof fn lemma_sample(self, previous: Option<Sample>, sample: Sample)
        requires
            self.has_century() || sample.century == 0,
        ensures
            self.run(
                Progress::Sampling { previous, current: Sample::blank(), position: 0 },
                self.sample_bytes(sample),
            ) == Self::after_sample(previous, sample),
    {
        let begin = Progress::Sampling { previous, current: Sample::blank(), position: 0 };
        let b0 = Seq::<u8>::empty();
        let b1 = b0.push(sample.second);
        let b2 = b1.push(sample.minute);
        let b3 = b2.push(sample.hour);
        let b4 = b3.push(sample.day);
        let b5 = b4.push(sample.month);
        let b6 = b5.push(sample.year);
        self.lemma_run_push(begin, b0, sample.second);
        self.lemma_run_push(begin, b1, sample.minute);
        self.lemma_run_push(begin, b2, sample.hour);
        self.lemma_run_push(begin, b3, sample.day);
        self.lemma_run_push(begin, b4, sample.month);
        self.lemma_run_push(begin, b5, sample.year);
        if self.has_century() {
            self.lemma_run_push(begin, b6, sample.century);
        }
    }

    /// Part of the way through a sample the reader asks for the register of
    /// the next field.
    proof fn lemma_partial_sample(self, previous: Option<Sample>, sample: Sample, read: int)
        requires
            0 <= read < self.field_count(),
        ensures
            self.wanted(
                self.run(
                    Progress::Sampling { previous, current: Sample::blank(), position: 0 },
                    self.sample_bytes(sample).take(read),
                ),
            ) == self.sample_registers()[read],
    {
        let begin = Progress::Sampling { previous, current: Sample::blank(), position: 0 };
        let b0 = Seq::<u8>::empty();
        let b1 = b0.push(sample.second);
        let b2 = b1.push(sample.minute);
        let b3 = b2.push(sample.hour);
        let b4 = b3.push(sample.day);
        let b5 = b4.push(sample.month);
        let b6 = b5.push(sample.year);
        self.lemma_run_push(begin, b0, sample.second);
        self.lemma_run_push(begin, b1, sample.minute);
        self.lemma_run_push(begin, b2, sample.hour);
        self.lemma_run_push(begin, b3, sample.day);
        self.lemma_run_push(begin, b4, sample.month);
        self.lemma_run_push(begin, b5, sample.year);
        let part = self.sample_bytes(sample).take(read);
        if read == 0 {
            assert(part =~= b0);
        } else if read == 1 {
            assert(part =~= b1);
        } else if read == 2 {
            assert(part =~= b2);
        } else if read == 3 {
            assert(part =~= b3);
        } else if read == 4 {
            assert(part =~= b4);
        } else if read == 5 {
            assert(part =~= b5);
        } else {
            assert(part =~= b6);
        }
    }

    /// During a round the reader asks for status register A until the update
    /// flag is clear, and only then for the time registers, in their fixed
    /// order.
    pub proof fn lemma_round_requests(self, previous: Option<Sample>, round: Round)
        requires
            self.admits(round),
        ensures
            self.asked(Progress::Polling { previous }, self.round_bytes(round)) == Seq::new(
                round.busy.len() + 1,
                |i: int| Some(REG_STATUS_A),
            ) + self.sample_registers(),
    {
        let polling = Progress::Polling { previous };
        let polls = round.busy.push(round.idle);
        let fields = self.sample_bytes(round.sample);
        let bytes = self.round_bytes(round);
        let asked = self.asked(polling, bytes);
        let expected = Seq::new(round.busy.len() + 1, |i: int| Some(REG_STATUS_A))
            + self.sample_registers();
        assert forall|i: int| 0 <= i < asked.len() implies asked[i] == expected[i] by {
            if i <= round.busy.len() {
                let waited = round.busy.take(i);
                assert(bytes.take(i) =~= waited);
                self.lemma_busy(previous, waited);
            } else {
                let read = i - polls.len();
                assert(bytes.take(i) =~= polls + fields.take(read));
                self.lemma_busy(previous, round.busy);
                self.lemma_run_push(polling, round.busy, round.idle);
                self.lemma_run_concat(polling, polls, fields.take(read));
                self.lemma_partial_sample(previous, round.sample, read);
            }
        }
        assert(asked =~= expected);
    }

    /// What the reader asks for over two stretches of answers is what it asks
    /// for over the first, then what it asks for over the second from where
    /// the first left it.
    pub proof fn lemma_asked_concat(self, progress: Progress, first: Seq<u8>, second: Seq<u8>)
        ensures
            self.asked(progress, first + second) == self.asked(progress, first) + self.asked(
                self.run(progress, first),
                second,
            ),
    {
        let whole = self.asked(progress, first + second);
        let parts = self.asked(progress, first) + self.asked(self.run(progress, first), second);
        assert forall|i: int| 0 <= i < whole.len() implies whole[i] == parts[i] by {
            if i < first.len() {
                assert((first + second).take(i) =~= first.take(i));
            } else {
                assert((first + second).take(i) =~= first + second.take(i - first.len()));
                self.lemma_run_concat(progress, first, second.take(i - first.len()));
            }
        }
        assert(whole =~= parts);
    }

    /// One round, from the first poll to the last register of the sample.
    pub proof fn lemma_round(self, previous: Option<Sample>, round: Round)
        requires
            self.admits(round),
        ensures
            self.run(Progress::Polling { previous }, self.round_bytes(round)) == Self::after_sample(
                previous,
                round.sample,
            ),
    {
        let polling = Progress::Polling { previous };
        self.lemma_busy(previous, round.busy);
        self.lemma_run_push(polling, round.busy, round.idle);
        self.lemma_sample(previous, round.sample);
        self.lemma_run_concat(polling, round.busy.push(round.idle), self.sample_bytes(round.sample));
    }

    /// After rounds of which none repeats the sample before it, the reader
    /// polls for another round and holds the last sample to compare with.
    pub proof fn lemma_unsettled_rounds(self, rounds: Seq<Round>)
        requires
            forall|i: int| 0 <= i < rounds.len() ==> self.admits(#[trigger] rounds[i]),
            Self::unsettled(rounds),
        ensures
            self.run(Self::initial(), self.rounds_bytes(rounds)) == (Progress::Polling {
                previous: if rounds.len() == 0 {
                    None
                } else {
                    Some(rounds.last().sample)
                },
            }),
        decreases rounds.len(),
    {
        if rounds.len() > 0 {
            let earlier = rounds.drop_last();
            assert forall|i: int| 0 < i < earlier.len() implies (#[trigger] earlier[i]).sample
                != earlier[i - 1].sample by {
                assert(earlier[i] == rounds[i]);
                assert(earlier[i - 1] == rounds[i - 1]);
            }
            self.lemma_unsettled_rounds(earlier);
            let previous = if earlier.len() == 0 {
                None
            } else {
                Some(earlier.last().sample)
            };
            self.lemma_run_concat(
                Self::initial(),
                self.rounds_bytes(earlier),
                self.round_bytes(rounds.last()),
            );
            self.lemma_round(previous, rounds.last());
        }
    }

    /// A sample that repeats the one before it ends the sampling at once: the
    /// reader asks for the mode bits next, not for another round.
    pub proof fn lemma_repeat_settles(self, rounds: Seq<Round>, repeat: Round)
        requires
            rounds.len() > 0,
            forall|i: int| 0 <= i < rounds.len() ==> self.admits(#[trigger] rounds[i]),
            Self::unsettled(rounds),
            self.admits(repeat),
            repeat.sample == rounds.last().sample,
        ensures
            self.run(Self::initial(), self.rounds_bytes(rounds.push(repeat))) == (Progress::Settled {
                sample: repeat.sample,
            }),
            self.wanted(self.run(Self::initial(), self.rounds_bytes(rounds.push(repeat)))) == Some(
                REG_STATUS_B,
            ),
    {
        let all = rounds.push(repeat);
        assert(all.drop_last() =~= rounds);
        assert(all.last() == repeat);
        self.lemma_unsettled_rounds(rounds);
        self.lemma_run_concat(Self::initial(), self.rounds_bytes(rounds), self.round_bytes(repeat));
        self.lemma_round(Some(rounds.last().sample), repeat);
    }

    /// A whole read: the time is decoded from the first sample that repeats
    /// the one before it, under the mode bits read right after it.
    pub proof fn lemma_read(self, rounds: Seq<Round>, repeat: Round, status_b: u8)
        requires
            rounds.len() > 0,
            forall|i: int| 0 <= i < rounds.len() ==> self.admits(#[trigger] rounds[i]),
            Self::unsettled(rounds),
            self.admits(repeat),
            repeat.sample == rounds.last().sample,
        ensures
            self.run(
                Self::initial(),
                self.rounds_bytes(rounds.push(repeat)).push(status_b),
            ).outcome() == Some(self.decoded(repeat.sample, status_b)),
            self.run(Self::initial(), self.rounds_bytes(rounds.push(repeat))).outcome() is None,
    {
        self.lemma_repeat_settles(rounds, repeat);
        self.lemma_run_push(Self::initial(), self.rounds_bytes(rounds.push(repeat)), status_b);
    }
}

} // verus!
