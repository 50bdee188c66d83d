//! The bender: it applies the combinations of a configuration, each to a
//! buffer of its own, and names the files that the buffers come from and go
//! to. It touches no file itself: it says what is to be done with one.

use crate::configuration::Configuration;
use crate::error::FailureKind;
use crate::error::MutationError;
use crate::kind::MutationKind;
use crate::mutations::chaos::chaos;
use crate::mutations::chaos::chaos_outcome;
use crate::mutations::compress::compress;
use crate::mutations::compress::compress_outcome;
use crate::mutations::gradient::gradient;
use crate::mutations::gradient::gradient_outcome;
use crate::mutations::increase::increase;
use crate::mutations::increase::increase_outcome;
use crate::mutations::loops::loops;
use crate::mutations::loops::loops_outcome;
use crate::mutations::multiply::Factor;
use crate::mutations::multiply::multiply;
use crate::mutations::multiply::multiply_outcome;
use crate::mutations::operation::header_kept;
use crate::mutations::operation::refused;
use crate::mutations::reverse::reverse;
use crate::mutations::reverse::reverse_outcome;
use crate::mutations::shift::shift;
use crate::mutations::shift::shift_outcome;
use crate::mutations::shuffle::shuffle;
use crate::mutations::shuffle::shuffle_outcome;
use crate::mutations::swap::swap;
use crate::mutations::swap::swap_outcome;
use crate::mutations::void::void;
use crate::mutations::void::void_outcome;
use crate::options::texts_of;
use crate::text::decimal;
use crate::text::directory_of;
use crate::text::extension_of;
use crate::text::has_extension;
use crate::text::join;
use crate::text::joined;
use crate::text::lemma_decimal_injective;
use crate::text::split_path;
use crate::text::stem_of;
use crate::text::truncate;
use crate::text::truncated;
use crate::text::write_decimal;
use vstd::prelude::*;
use vstd::string::StringExecFns;
use vstd::string::StrSliceExecFns;

verus! {

/// What an application of a mutation of `kind` comes to: what the kind's own
/// function promises. A Multiply without a factor is refused, once it is
/// known to be configured.
pub open spec fn outcome(
    kind: MutationKind,
    before: Seq<u8>,
    after: Seq<u8>,
    cfg: Configuration,
    factor: Option<Factor>,
    done: Result<String, MutationError>,
) -> bool {
    let configured = cfg.spec_of(kind);
    match kind {
        MutationKind::Void => void_outcome(before, after, configured, done),
        MutationKind::Chaos => chaos_outcome(before, after, configured, done),
        MutationKind::Loops => loops_outcome(before, after, configured, done),
        MutationKind::Reverse => reverse_outcome(before, after, configured, done),
        MutationKind::Shift => shift_outcome(before, after, configured, done),
        MutationKind::Shuffle => shuffle_outcome(before, after, configured, done),
        MutationKind::Swap => swap_outcome(before, after, configured, done),
        MutationKind::Increase => increase_outcome(before, after, configured, done),
        MutationKind::Gradient => gradient_outcome(before, after, configured, done),
        MutationKind::Multiply => match factor {
            Some(factor) => multiply_outcome(before, after, configured, done, factor),
            None => refused(
                before,
                after,
                done,
                if configured is None {
                    FailureKind::NotConfigured
                } else {
                    FailureKind::MissingFactor
                },
            ),
        },
        MutationKind::Compress => compress_outcome(before, after, configured, done),
    }
}

/// The factor behind a reference, if there is one.
pub open spec fn given(factor: Option<&Factor>) -> Option<Factor> {
    match factor {
        Some(factor) => Some(*factor),
        None => None,
    }
}

/// Applies the mutation of `kind` to the buffer, with the parameters that the
/// configuration holds for it. `factor` is what a Multiply multiplies by; no
/// other kind looks at it.
pub fn apply(kind: MutationKind, data: &mut [u8], cfg: &Configuration, factor: Option<&Factor>) -> (done:
    Result<String, MutationError>)
    ensures
        header_kept(old(data)@, final(data)@),
        outcome(kind, old(data)@, final(data)@, *cfg, given(factor), done),
{
    match kind {
        MutationKind::Void => void(data, cfg),
        MutationKind::Chaos => chaos(data, cfg),
        MutationKind::Loops => loops(data, cfg),
        MutationKind::Reverse => reverse(data, cfg),
        MutationKind::Shift => shift(data, cfg),
        MutationKind::Shuffle => shuffle(data, cfg),
        MutationKind::Swap => swap(data, cfg),
        MutationKind::Increase => increase(data, cfg),
        MutationKind::Gradient => gradient(data, cfg),
        MutationKind::Multiply => match factor {
            Some(factor) => multiply(data, cfg, factor),
            None => if cfg.spec(MutationKind::Multiply).is_none() {
                Err(MutationError::of(FailureKind::NotConfigured))
            } else {
                Err(MutationError::of(FailureKind::MissingFactor))
            },
        },
        MutationKind::Compress => compress(data, cfg),
    }
}

/// The factor that is supplied for step `step` of a combination.
pub open spec fn factor_at(factors: Seq<Option<Factor>>, step: int) -> Option<Factor> {
    if 0 <= step < factors.len() {
        factors[step]
    } else {
        None
    }
}

/// Whether `states` are the buffer before and after each of the first
/// `steps` mutations of the combination, every one of them applied with
/// success and described in `log`.
pub open spec fn steps_applied(
    combination: Seq<MutationKind>,
    cfg: Configuration,
    factors: Seq<Option<Factor>>,
    states: Seq<Seq<u8>>,
    log: Seq<String>,
    steps: int,
) -> bool {
    &&& states.len() == steps + 1
    &&& log.len() == steps
    &&& steps <= combination.len()
    &&& forall|i: int|
        0 <= i < steps ==> header_kept(#[trigger] states[i], states[i + 1]) && outcome(
            combination[i],
            states[i],
            states[i + 1],
            cfg,
            factor_at(factors, i),
            Ok::<String, MutationError>(log[i]),
        )
}

/// What applying a combination comes to. Either every mutation was applied,
/// in the order of the combination and each to what the one before had left,
/// and the log holds their descriptions; or the first one that failed is
/// reported, the buffer is as that one found it, and no later one was tried.
pub open spec fn combination_outcome(
    combination: Seq<MutationKind>,
    before: Seq<u8>,
    after: Seq<u8>,
    cfg: Configuration,
    factors: Seq<Option<Factor>>,
    made: Result<Vec<String>, MutationError>,
) -> bool {
    match made {
        Ok(log) => exists|states: Seq<Seq<u8>>|
            #![trigger steps_applied(combination, cfg, factors, states, log@, combination.len() as int)]
            steps_applied(combination, cfg, factors, states, log@, combination.len() as int)
                && states[0] == before && states[combination.len() as int] == after,
        Err(e) => exists|states: Seq<Seq<u8>>, log: Seq<String>, failing: int|
            #![trigger steps_applied(combination, cfg, factors, states, log, failing)]
            0 <= failing < combination.len() && steps_applied(
                combination,
                cfg,
                factors,
                states,
                log,
                failing,
            ) && states[0] == before && states[failing] == after && outcome(
                combination[failing],
                after,
                after,
                cfg,
                factor_at(factors, failing),
                Err::<String, MutationError>(e),
            ),
    }
}

/// A mutation that fails leaves the buffer as it found it.
pub proof fn lemma_failure_changes_nothing(
    kind: MutationKind,
    before: Seq<u8>,
    after: Seq<u8>,
    cfg: Configuration,
    factor: Option<Factor>,
    done: Result<String, MutationError>,
)
    requires
        outcome(kind, before, after, cfg, factor, done),
        done is Err,
    ensures
        after == before,
{
}

/// Whether a mutation of `kind` is applied for sure once it has parameters
/// and, for a Multiply, a factor, and the buffer is not empty: whatever is
/// sampled, it finds nothing to refuse.
pub open spec fn always_applies(kind: MutationKind) -> bool {
    match kind {
        MutationKind::Chaos | MutationKind::Loops | MutationKind::Shift | MutationKind::Swap => false,
        _ => true,
    }
}

/// Every state of a combination that is being applied has the length of the
/// first.
pub proof fn lemma_steps_keep_length(
    combination: Seq<MutationKind>,
    cfg: Configuration,
    factors: Seq<Option<Factor>>,
    states: Seq<Seq<u8>>,
    log: Seq<String>,
    steps: int,
    at: int,
)
    requires
        steps_applied(combination, cfg, factors, states, log, steps),
        0 <= at <= steps,
    ensures
        states[at].len() == states[0].len(),
    decreases at,
{
    if at > 0 {
        lemma_steps_keep_length(combination, cfg, factors, states, log, steps, at - 1);
        assert(header_kept(states[at - 1], states[at - 1 + 1]));
    }
}

/// A combination of mutations that are applied for sure does not fail: where
/// each of its kinds has parameters, each Multiply has its factor and the
/// buffer is not empty, every mutation is applied.
pub proof fn lemma_combination_succeeds(
    combination: Seq<MutationKind>,
    before: Seq<u8>,
    after: Seq<u8>,
    cfg: Configuration,
    factors: Seq<Option<Factor>>,
    made: Result<Vec<String>, MutationError>,
)
    requires
        combination_outcome(combination, before, after, cfg, factors, made),
        before.len() > 0,
        forall|i: int|
            0 <= i < combination.len() ==> always_applies(#[trigger] combination[i])
                && cfg.spec_of(combination[i]) is Some && (combination[i] == MutationKind::Multiply
                ==> factor_at(factors, i) is Some),
    ensures
        made is Ok,
{
    if let Err(e) = made {
        let (states, log, failing) = choose|states: Seq<Seq<u8>>, log: Seq<String>, failing: int|
            #![trigger steps_applied(combination, cfg, factors, states, log, failing)]
            0 <= failing < combination.len() && steps_applied(
                combination,
                cfg,
                factors,
                states,
                log,
                failing,
            ) && states[0] == before && states[failing] == after && outcome(
                combination[failing],
                after,
                after,
                cfg,
                factor_at(factors, failing),
                Err::<String, MutationError>(e),
            );
        lemma_steps_keep_length(combination, cfg, factors, states, log, failing, failing);
        assert(always_applies(combination[failing]));
    }
}

/// Applies the mutations of a combination one after the other, each to what
/// the one before has left of the buffer, and collects their descriptions.
/// Stops at the first mutation that fails. `factors` holds, at the place of
/// each Multiply in the combination, what it multiplies by.
pub fn run_combination(
    data: &mut [u8],
    combination: &Vec<MutationKind>,
    cfg: &Configuration,
    factors: &Vec<Option<Factor>>,
) -> (made: Result<Vec<String>, MutationError>)
    ensures
        header_kept(old(data)@, final(data)@),
        combination_outcome(combination@, old(data)@, final(data)@, *cfg, factors@, made),
{
    let mut log: Vec<String> = Vec::new();
    let ghost mut states: Seq<Seq<u8>> = seq![data@];
    let mut step: usize = 0;
    while step < combination.len()
        invariant
            step <= combination@.len(),
            header_kept(old(data)@, data@),
            steps_applied(combination@, *cfg, factors@, states, log@, step as int),
            states[0] == old(data)@,
            states[step as int] == data@,
        decreases combination@.len() - step,
    {
        let factor: Option<&Factor> = if step < factors.len() {
            match &factors[step] {
                Some(factor) => Some(factor),
                None => None,
            }
        } else {
            None
        };
        let ghost found = data@;
        let done = apply(combination[step], data, cfg, factor);
        match done {
            Ok(text) => {
                proof {
                    let longer = states.push(data@);
                    let told = log@.push(text);
                    assert forall|i: int| 0 <= i < step + 1 implies header_kept(
                        #[trigger] longer[i],
                        longer[i + 1],
                    ) && outcome(
                        combination@[i],
                        longer[i],
                        longer[i + 1],
                        *cfg,
                        factor_at(factors@, i),
                        Ok::<String, MutationError>(told[i]),
                    ) by {
                        if i < step {
                            assert(longer[i] == states[i]);
                            assert(longer[i + 1] == states[i + 1]);
                            assert(told[i] == log@[i]);
                        }
                    }
                    states = longer;
                }
                log.push(text);
            },
            Err(e) => {
                proof {
                    lemma_failure_changes_nothing(
                        combination@[step as int],
                        found,
                        data@,
                        *cfg,
                        given(factor),
                        Err::<String, MutationError>(e),
                    );
                }
                return Err(e);
            },
        }
        step += 1;
    }
    let ghost told = log@;
    let made: Result<Vec<String>, MutationError> = Ok(log);
    proof {
        let steps = combination@.len() as int;
        assert(made->Ok_0@ == told);
        assert(steps_applied(combination@, *cfg, factors@, states, made->Ok_0@, steps));
    }
    made
}

/// The number of characters of the log that a file name holds at most.
pub const LOG_LIMIT: usize = 200;

/// Whether the descriptions of the log, joined by `---`, are too long for a
/// file name and are cut off in it.
pub fn log_is_cut(log: &Vec<String>) -> (cut: bool)
    ensures
        cut == (joined(texts_of(log@), "---"@).len() > LOG_LIMIT),
{
    join(log, "---").as_str().unicode_len() > LOG_LIMIT
}

/// What is to be done with the temporary file of a job.
#[derive(Debug, PartialEq, Eq)]
pub enum JobAction {
    /// Every mutation was applied: the file gets its final name.
    Finalize { from: String, to: String },
    /// A mutation failed: the file is removed.
    Discard { path: String },
}

/// The controller of a run: it knows the configuration and the names of the
/// files, applies the combinations and says what becomes of each file.
pub struct KaBender<'a> {
    pub seed: String,
    outdir: String,
    extension: String,
    output: String,
    pub config: &'a Configuration,
}

impl<'a> KaBender<'a> {
    /// The text that tells the files of this run from those of others.
    pub closed spec fn mark(self) -> Seq<char> {
        self.seed@
    }

    /// The configuration of the run.
    pub closed spec fn configuration(self) -> Configuration {
        *self.config
    }

    /// The directory that the files are written to, with its last slash.
    pub closed spec fn directory(self) -> Seq<char> {
        self.outdir@
    }

    /// The extension of the files that are written.
    pub closed spec fn suffix(self) -> Seq<char> {
        self.extension@
    }

    /// The path of the output file without its extension.
    pub closed spec fn stem(self) -> Seq<char> {
        self.output@
    }

    /// The name of the temporary file of job `index`.
    pub open spec fn temp_name_of(self, index: int) -> Seq<char> {
        self.directory() + "temp"@ + decimal(index as nat) + "SEED="@ + self.mark() + "."@
            + self.suffix()
    }

    /// The final name of a file that the mutations of `log` were applied to:
    /// the path of the output file, the descriptions of the mutations joined
    /// by `---` and cut off after `LOG_LIMIT` characters, and the extension.
    pub open spec fn output_name_of(self, log: Seq<Seq<char>>) -> Seq<char> {
        self.stem() + "__"@ + truncated(joined(log, "---"@), LOG_LIMIT as int) + "."@
            + self.suffix()
    }

    /// The temporary files of two jobs of one run have different names.
    pub proof fn lemma_temp_names_differ(self, i: nat, j: nat)
        requires
            i != j,
        ensures
            self.temp_name_of(i as int) != self.temp_name_of(j as int),
    {
        let front = self.directory() + "temp"@;
        let back = "SEED="@ + self.mark() + "."@ + self.suffix();
        let first = self.temp_name_of(i as int);
        let second = self.temp_name_of(j as int);
        assert(first =~= front + decimal(i) + back);
        assert(second =~= front + decimal(j) + back);
        if first == second {
            assert(decimal(i).len() == decimal(j).len());
            assert(first.subrange(front.len() as int, (front.len() + decimal(i).len()) as int)
                =~= decimal(i));
            assert(second.subrange(front.len() as int, (front.len() + decimal(j).len()) as int)
                =~= decimal(j));
            lemma_decimal_injective(i, j);
        }
    }

    /// The temporary files of one job in two runs, which write to one
    /// directory with one extension and are told apart by their seeds, have
    /// different names.
    pub proof fn lemma_temp_names_differ_by_seed(self, other: KaBender, index: nat)
        requires
            self.directory() == other.directory(),
            self.suffix() == other.suffix(),
            self.mark() != other.mark(),
        ensures
            self.temp_name_of(index as int) != other.temp_name_of(index as int),
    {
        let front = self.directory() + "temp"@ + decimal(index) + "SEED="@;
        let back = "."@ + self.suffix();
        let first = self.temp_name_of(index as int);
        let second = other.temp_name_of(index as int);
        assert(first =~= front + self.mark() + back);
        assert(second =~= front + other.mark() + back);
        if first == second {
            assert(self.mark().len() == other.mark().len());
            assert(first.subrange(front.len() as int, (front.len() + self.mark().len()) as int)
                =~= self.mark());
            assert(second.subrange(front.len() as int, (front.len() + other.mark().len()) as int)
                =~= other.mark());
        }
    }

    /// A bender for the configuration. `seed` tells the files of this run
    /// from those of other runs. The name of the output file is split into
    /// directory, stem and extension; without an extension there is no
    /// bender.
    pub fn new(configuration: &'a Configuration, seed: String) -> (made: Option<KaBender<'a>>)
        ensures
            made is Some <==> has_extension(configuration.output()),
            made matches Some(bender) ==> bender.mark() == seed@ && bender.configuration()
                == *configuration && bender.directory() == directory_of(configuration.output()) && bender.suffix()
                == extension_of(configuration.output()) && bender.stem() == directory_of(
                configuration.output(),
            ) + stem_of(configuration.output()),
    {
        match split_path(configuration.get_outputfile()) {
            Some((outdir, stem, extension)) => {
                let mut output = outdir.clone();
                output.append(stem.as_str());
                Some(KaBender { seed, outdir, extension, output, config: configuration })
            },
            None => None,
        }
    }

    /// The name of the temporary file of job `index`.
    pub fn temp_name(&self, index: usize) -> (name: String)
        ensures
            name@ == self.temp_name_of(index as int),
    {
        let mut name = self.outdir.clone();
        name.append("temp");
        name.append(write_decimal(index).as_str());
        name.append("SEED=");
        name.append(self.seed.as_str());
        name.append(".");
        name.append(self.extension.as_str());
        name
    }

    /// The final name of a file that the mutations of `log` were applied to.
    pub fn output_name(&self, log: &Vec<String>) -> (name: String)
        ensures
            name@ == self.output_name_of(texts_of(log@)),
    {
        let all = join(log, "---");
        let mut name = self.output.clone();
        name.append("__");
        name.append(truncate(all.as_str(), LOG_LIMIT).as_str());
        name.append(".");
        name.append(self.extension.as_str());
        name
    }

    /// What becomes of the file of job `index`, given what applying its
    /// combination came to. It depends on this job alone: a job that failed
    /// has its file removed, and every other job has its file named.
    pub open spec fn action_for(self, index: int, made: Result<Vec<String>, MutationError>) -> (
        Seq<char>,
        Option<Seq<char>>,
    ) {
        match made {
            Ok(log) => (self.temp_name_of(index), Some(self.output_name_of(texts_of(log@)))),
            Err(_) => (self.temp_name_of(index), None),
        }
    }

    /// Says what is to be done with the file of job `index`.
    pub fn finish(&self, index: usize, made: &Result<Vec<String>, MutationError>) -> (action:
        JobAction)
        ensures
            action_says(action) == self.action_for(index as int, *made),
    {
        match made {
            Ok(log) => JobAction::Finalize {
                from: self.temp_name(index),
                to: self.output_name(log),
            },
            Err(_) => JobAction::Discard { path: self.temp_name(index) },
        }
    }

    /// Applies combination `index` of the configuration to the buffer. An
    /// index beyond the combinations is refused.
    pub fn run_job(&self, index: usize, data: &mut [u8], factors: &Vec<Option<Factor>>) -> (made:
        Result<Vec<String>, MutationError>)
        ensures
            header_kept(old(data)@, final(data)@),
            index < self.configuration().requested().len() ==> combination_outcome(
                self.configuration().requested()[index as int],
                old(data)@,
                final(data)@,
                self.configuration(),
                factors@,
                made,
            ),
            index >= self.configuration().requested().len() ==> final(data)@ == old(data)@ && made is Err
                && made->Err_0.kind == FailureKind::OutOfBounds && made->Err_0.error@
                == FailureKind::OutOfBounds.text(),
    {
        let combinations = self.config.get_mutations();
        if index >= combinations.len() {
            return Err(MutationError::of(FailureKind::OutOfBounds));
        }
        run_combination(data, &combinations[index], self.config, factors)
    }
}

/// What an action says: the file that it takes, and the name that it gives
/// the file, if it gives one.
pub open spec fn action_says(action: JobAction) -> (Seq<char>, Option<Seq<char>>) {
    match action {
        JobAction::Finalize { from, to } => (from@, Some(to@)),
        JobAction::Discard { path } => (path@, None),
    }
}

} // verus!
