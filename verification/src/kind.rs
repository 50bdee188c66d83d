//! The eleven kinds of mutation and the names of the options that steer them.

use crate::text::same_text;
use vstd::prelude::*;

verus! {

/// A kind of mutation.
#[derive(Clone, Copy, Debug, PartialEq, Eq, Hash, Structural)]
pub enum MutationKind {
    Void,
    Chaos,
    Loops,
    Reverse,
    Shift,
    Shuffle,
    Swap,
    Increase,
    Gradient,
    Multiply,
    Compress,
}

/// The number of kinds.
pub const KIND_COUNT: usize = 11;

/// The number of options.
pub const OPTION_COUNT: usize = 12;

/// An option that the configuration reads.
#[derive(Clone, Copy, Debug, PartialEq, Eq, Hash, Structural)]
pub enum OptionName {
    Inputfile,
    Outputfile,
    Times,
    Mutations,
    Iterations,
    Chunksize,
    Loops,
    IncreaseBy,
    AccelerateBy,
    AccelerateIn,
    MultiplyBy,
    CompressBy,
}

impl MutationKind {
    /// The place of the kind in the order in which kinds are gone through.
    pub open spec fn ordinal(self) -> int {
        match self {
            MutationKind::Void => 0,
            MutationKind::Chaos => 1,
            MutationKind::Loops => 2,
            MutationKind::Reverse => 3,
            MutationKind::Shift => 4,
            MutationKind::Shuffle => 5,
            MutationKind::Swap => 6,
            MutationKind::Increase => 7,
            MutationKind::Gradient => 8,
            MutationKind::Multiply => 9,
            MutationKind::Compress => 10,
        }
    }

    /// The kind at a place of that order; beyond the order, the last kind.
    pub open spec fn at(ordinal: int) -> MutationKind {
        if ordinal == 0 {
            MutationKind::Void
        } else if ordinal == 1 {
            MutationKind::Chaos
        } else if ordinal == 2 {
            MutationKind::Loops
        } else if ordinal == 3 {
            MutationKind::Reverse
        } else if ordinal == 4 {
            MutationKind::Shift
        } else if ordinal == 5 {
            MutationKind::Shuffle
        } else if ordinal == 6 {
            MutationKind::Swap
        } else if ordinal == 7 {
            MutationKind::Increase
        } else if ordinal == 8 {
            MutationKind::Gradient
        } else if ordinal == 9 {
            MutationKind::Multiply
        } else {
            MutationKind::Compress
        }
    }

    /// The name by which a combination asks for the kind.
    pub open spec fn name(self) -> Seq<char> {
        match self {
            MutationKind::Void => "Void"@,
            MutationKind::Chaos => "Chaos"@,
            MutationKind::Loops => "Loops"@,
            MutationKind::Reverse => "Reverse"@,
            MutationKind::Shift => "Shift"@,
            MutationKind::Shuffle => "Shuffle"@,
            MutationKind::Swap => "Swap"@,
            MutationKind::Increase => "Increase"@,
            MutationKind::Gradient => "Gradient"@,
            MutationKind::Multiply => "Multiply"@,
            MutationKind::Compress => "Compress"@,
        }
    }

    /// The table of the option tree that holds the kind's own options.
    pub open spec fn block(self) -> Seq<char> {
        match self {
            MutationKind::Void => "VoidConfig"@,
            MutationKind::Chaos => "ChaosConfig"@,
            MutationKind::Loops => "LoopConfig"@,
            MutationKind::Reverse => "ReverseConfig"@,
            MutationKind::Shift => "ShiftConfig"@,
            MutationKind::Shuffle => "ShuffleConfig"@,
            MutationKind::Swap => "SwapConfig"@,
            MutationKind::Increase => "IncreaseConfig"@,
            MutationKind::Gradient => "GradientConfig"@,
            MutationKind::Multiply => "MultiplyConfig"@,
            MutationKind::Compress => "CompressConfig"@,
        }
    }

    /// The tag that opens the description of an applied mutation.
    pub open spec fn tag(self) -> Seq<char> {
        match self {
            MutationKind::Void => "VOID"@,
            MutationKind::Chaos => "CHS"@,
            MutationKind::Loops => "LPS"@,
            MutationKind::Reverse => "RVR"@,
            MutationKind::Shift => "SFT"@,
            MutationKind::Shuffle => "SHF"@,
            MutationKind::Swap => "SWP"@,
            MutationKind::Increase => "INC"@,
            MutationKind::Gradient => "GRT"@,
            MutationKind::Multiply => "MUL"@,
            MutationKind::Compress => "CMP"@,
        }
    }

    /// The kind that `name` asks for, if it names one.
    pub open spec fn named(name: Seq<char>) -> Option<MutationKind> {
        if exists|kind: MutationKind| kind.name() == name {
            Some(choose|kind: MutationKind| kind.name() == name)
        } else {
            None
        }
    }

    /// The first parameter that only this kind has, if it has one.
    pub open spec fn first_extra(self) -> Option<OptionName> {
        match self {
            MutationKind::Loops => Some(OptionName::Loops),
            MutationKind::Increase => Some(OptionName::IncreaseBy),
            MutationKind::Gradient => Some(OptionName::AccelerateBy),
            MutationKind::Multiply => Some(OptionName::MultiplyBy),
            MutationKind::Compress => Some(OptionName::CompressBy),
            _ => None,
        }
    }

    /// The second parameter that only this kind has, if it has two.
    pub open spec fn second_extra(self) -> Option<OptionName> {
        match self {
            MutationKind::Gradient => Some(OptionName::AccelerateIn),
            _ => None,
        }
    }

    /// The place of the kind in the order of kinds.
    pub fn index(self) -> (place: usize)
        ensures
            place == self.ordinal(),
            place < KIND_COUNT,
    {
        match self {
            MutationKind::Void => 0,
            MutationKind::Chaos => 1,
            MutationKind::Loops => 2,
            MutationKind::Reverse => 3,
            MutationKind::Shift => 4,
            MutationKind::Shuffle => 5,
            MutationKind::Swap => 6,
            MutationKind::Increase => 7,
            MutationKind::Gradient => 8,
            MutationKind::Multiply => 9,
            MutationKind::Compress => 10,
        }
    }

    /// The kind at `place` of the order of kinds; beyond the order, the last
    /// kind.
    pub fn from_index(place: usize) -> (kind: MutationKind)
        ensures
            kind == MutationKind::at(place as int),
            place < KIND_COUNT ==> kind.ordinal() == place,
    {
        if place == 0 {
            MutationKind::Void
        } else if place == 1 {
            MutationKind::Chaos
        } else if place == 2 {
            MutationKind::Loops
        } else if place == 3 {
            MutationKind::Reverse
        } else if place == 4 {
            MutationKind::Shift
        } else if place == 5 {
            MutationKind::Shuffle
        } else if place == 6 {
            MutationKind::Swap
        } else if place == 7 {
            MutationKind::Increase
        } else if place == 8 {
            MutationKind::Gradient
        } else if place == 9 {
            MutationKind::Multiply
        } else {
            MutationKind::Compress
        }
    }

    /// The name by which a combination asks for the kind.
    pub fn as_str(self) -> (text: &'static str)
        ensures
            text@ == self.name(),
    {
        match self {
            MutationKind::Void => "Void",
            MutationKind::Chaos => "Chaos",
            MutationKind::Loops => "Loops",
            MutationKind::Reverse => "Reverse",
            MutationKind::Shift => "Shift",
            MutationKind::Shuffle => "Shuffle",
            MutationKind::Swap => "Swap",
            MutationKind::Increase => "Increase",
            MutationKind::Gradient => "Gradient",
            MutationKind::Multiply => "Multiply",
            MutationKind::Compress => "Compress",
        }
    }

    /// The table of the option tree that holds the kind's own options.
    pub fn block_name(self) -> (text: &'static str)
        ensures
            text@ == self.block(),
    {
        match self {
            MutationKind::Void => "VoidConfig",
            MutationKind::Chaos => "ChaosConfig",
            MutationKind::Loops => "LoopConfig",
            MutationKind::Reverse => "ReverseConfig",
            MutationKind::Shift => "ShiftConfig",
            MutationKind::Shuffle => "ShuffleConfig",
            MutationKind::Swap => "SwapConfig",
            MutationKind::Increase => "IncreaseConfig",
            MutationKind::Gradient => "GradientConfig",
            MutationKind::Multiply => "MultiplyConfig",
            MutationKind::Compress => "CompressConfig",
        }
    }

    /// The tag that opens the description of an applied mutation.
    pub fn tag_text(self) -> (text: &'static str)
        ensures
            text@ == self.tag(),
    {
        match self {
            MutationKind::Void => "VOID",
            MutationKind::Chaos => "CHS",
            MutationKind::Loops => "LPS",
            MutationKind::Reverse => "RVR",
            MutationKind::Shift => "SFT",
            MutationKind::Shuffle => "SHF",
            MutationKind::Swap => "SWP",
            MutationKind::Increase => "INC",
            MutationKind::Gradient => "GRT",
            MutationKind::Multiply => "MUL",
            MutationKind::Compress => "CMP",
        }
    }

    /// The kind whose table is called `block`, if there is one.
    pub open spec fn blocked(block: Seq<char>) -> Option<MutationKind> {
        if exists|kind: MutationKind| kind.block() == block {
            Some(choose|kind: MutationKind| kind.block() == block)
        } else {
            None
        }
    }

    /// No two kinds share a table.
    pub proof fn lemma_blocks_differ(a: MutationKind, b: MutationKind)
        requires
            a.block() == b.block(),
        ensures
            a == b,
    {
        reveal_strlit("VoidConfig");
        reveal_strlit("ChaosConfig");
        reveal_strlit("LoopConfig");
        reveal_strlit("ReverseConfig");
        reveal_strlit("ShiftConfig");
        reveal_strlit("ShuffleConfig");
        reveal_strlit("SwapConfig");
        reveal_strlit("IncreaseConfig");
        reveal_strlit("GradientConfig");
        reveal_strlit("MultiplyConfig");
        reveal_strlit("CompressConfig");
        if a != b {
            let x = a.block();
            let y = b.block();
            assert(x.len() == y.len());
            assert(x[0] == y[0]);
            assert(x[1] == y[1]);
            assert(x[2] == y[2]);
        }
    }

    /// The kind whose table is called `block`.
    pub fn from_block(block: &str) -> (found: Option<MutationKind>)
        ensures
            found == MutationKind::blocked(block@),
    {
        let mut place: usize = 0;
        while place < KIND_COUNT
            invariant
                place <= KIND_COUNT,
                forall|before: int|
                    0 <= before < place ==> MutationKind::at(before).block() != block@,
            decreases KIND_COUNT - place,
        {
            let kind = MutationKind::from_index(place);
            if same_text(block, kind.block_name()) {
                proof {
                    let found = choose|other: MutationKind| other.block() == kind.block();
                    MutationKind::lemma_blocks_differ(found, kind);
                }
                return Some(kind);
            }
            place += 1;
        }
        proof {
            assert forall|kind: MutationKind| kind.block() != block@ by {
                assert(MutationKind::at(kind.ordinal()) == kind);
            }
        }
        None
    }

    /// No two kinds share a name.
    pub proof fn lemma_names_differ(a: MutationKind, b: MutationKind)
        requires
            a.name() == b.name(),
        ensures
            a == b,
    {
        reveal_strlit("Void");
        reveal_strlit("Chaos");
        reveal_strlit("Loops");
        reveal_strlit("Reverse");
        reveal_strlit("Shift");
        reveal_strlit("Shuffle");
        reveal_strlit("Swap");
        reveal_strlit("Increase");
        reveal_strlit("Gradient");
        reveal_strlit("Multiply");
        reveal_strlit("Compress");
        if a != b {
            let x = a.name();
            let y = b.name();
            assert(x.len() == y.len());
            assert(x[0] == y[0]);
            assert(x[1] == y[1]);
            assert(x[2] == y[2]);
        }
    }

    /// The name of a kind asks for that kind.
    pub proof fn lemma_named_by_own_name(kind: MutationKind)
        ensures
            MutationKind::named(kind.name()) == Some(kind),
    {
        let found = choose|other: MutationKind| other.name() == kind.name();
        MutationKind::lemma_names_differ(found, kind);
    }

    /// The kind that `name` asks for. A name outside the eleven asks for none.
    pub fn from_name(name: &str) -> (found: Option<MutationKind>)
        ensures
            found == MutationKind::named(name@),
    {
        let mut place: usize = 0;
        while place < KIND_COUNT
            invariant
                place <= KIND_COUNT,
                forall|before: int| 0 <= before < place ==> MutationKind::at(before).name() != name@,
            decreases KIND_COUNT - place,
        {
            let kind = MutationKind::from_index(place);
            if same_text(name, kind.as_str()) {
                proof {
                    MutationKind::lemma_named_by_own_name(kind);
                }
                return Some(kind);
            }
            place += 1;
        }
        proof {
            assert forall|kind: MutationKind| kind.name() != name@ by {
                assert(MutationKind::at(kind.ordinal()) == kind);
            }
        }
        None
    }
}

impl OptionName {
    /// The place of the option in the order of options.
    pub open spec fn ordinal(self) -> int {
        match self {
            OptionName::Inputfile => 0,
            OptionName::Outputfile => 1,
            OptionName::Times => 2,
            OptionName::Mutations => 3,
            OptionName::Iterations => 4,
            OptionName::Chunksize => 5,
            OptionName::Loops => 6,
            OptionName::IncreaseBy => 7,
            OptionName::AccelerateBy => 8,
            OptionName::AccelerateIn => 9,
            OptionName::MultiplyBy => 10,
            OptionName::CompressBy => 11,
        }
    }

    /// The option at a place of that order; beyond the order, the last
    /// option.
    pub open spec fn at(ordinal: int) -> OptionName {
        if ordinal == 0 {
            OptionName::Inputfile
        } else if ordinal == 1 {
            OptionName::Outputfile
        } else if ordinal == 2 {
            OptionName::Times
        } else if ordinal == 3 {
            OptionName::Mutations
        } else if ordinal == 4 {
            OptionName::Iterations
        } else if ordinal == 5 {
            OptionName::Chunksize
        } else if ordinal == 6 {
            OptionName::Loops
        } else if ordinal == 7 {
            OptionName::IncreaseBy
        } else if ordinal == 8 {
            OptionName::AccelerateBy
        } else if ordinal == 9 {
            OptionName::AccelerateIn
        } else if ordinal == 10 {
            OptionName::MultiplyBy
        } else {
            OptionName::CompressBy
        }
    }

    /// The option at `place` of the order of options; beyond the order, the
    /// last option.
    pub fn from_index(place: usize) -> (option: OptionName)
        ensures
            option == OptionName::at(place as int),
            place < OPTION_COUNT ==> option.ordinal() == place,
    {
        if place == 0 {
            OptionName::Inputfile
        } else if place == 1 {
            OptionName::Outputfile
        } else if place == 2 {
            OptionName::Times
        } else if place == 3 {
            OptionName::Mutations
        } else if place == 4 {
            OptionName::Iterations
        } else if place == 5 {
            OptionName::Chunksize
        } else if place == 6 {
            OptionName::Loops
        } else if place == 7 {
            OptionName::IncreaseBy
        } else if place == 8 {
            OptionName::AccelerateBy
        } else if place == 9 {
            OptionName::AccelerateIn
        } else if place == 10 {
            OptionName::MultiplyBy
        } else {
            OptionName::CompressBy
        }
    }

    /// The option that stands under `key`, if there is one.
    pub open spec fn keyed(key: Seq<char>) -> Option<OptionName> {
        if exists|option: OptionName| option.key() == key {
            Some(choose|option: OptionName| option.key() == key)
        } else {
            None
        }
    }

    /// No two options share a key.
    pub proof fn lemma_keys_differ(a: OptionName, b: OptionName)
        requires
            a.key() == b.key(),
        ensures
            a == b,
    {
        reveal_strlit("inputfile");
        reveal_strlit("outputfile");
        reveal_strlit("times");
        reveal_strlit("mutations");
        reveal_strlit("iterations");
        reveal_strlit("chunksize");
        reveal_strlit("loops");
        reveal_strlit("increase_by");
        reveal_strlit("accelerate_by");
        reveal_strlit("accelerate_in");
        reveal_strlit("multiply_by");
        reveal_strlit("compress_by");
        if a != b {
            let x = a.key();
            let y = b.key();
            assert(x.len() == y.len());
            assert(x[0] == y[0]);
            assert(x[1] == y[1]);
            assert(x.len() > 11 ==> x[11] == y[11]);
        }
    }

    /// The option that stands under `key`.
    pub fn from_key(key: &str) -> (found: Option<OptionName>)
        ensures
            found == OptionName::keyed(key@),
    {
        let mut place: usize = 0;
        while place < OPTION_COUNT
            invariant
                place <= OPTION_COUNT,
                forall|before: int| 0 <= before < place ==> OptionName::at(before).key() != key@,
            decreases OPTION_COUNT - place,
        {
            let option = OptionName::from_index(place);
            if same_text(key, option.as_str()) {
                proof {
                    let found = choose|other: OptionName| other.key() == option.key();
                    OptionName::lemma_keys_differ(found, option);
                }
                return Some(option);
            }
            place += 1;
        }
        proof {
            assert forall|option: OptionName| option.key() != key@ by {
                assert(OptionName::at(option.ordinal()) == option);
            }
        }
        None
    }

    /// The key under which the option stands in the option tree.
    pub open spec fn key(self) -> Seq<char> {
        match self {
            OptionName::Inputfile => "inputfile"@,
            OptionName::Outputfile => "outputfile"@,
            OptionName::Times => "times"@,
            OptionName::Mutations => "mutations"@,
            OptionName::Iterations => "iterations"@,
            OptionName::Chunksize => "chunksize"@,
            OptionName::Loops => "loops"@,
            OptionName::IncreaseBy => "increase_by"@,
            OptionName::AccelerateBy => "accelerate_by"@,
            OptionName::AccelerateIn => "accelerate_in"@,
            OptionName::MultiplyBy => "multiply_by"@,
            OptionName::CompressBy => "compress_by"@,
        }
    }

    /// A line of an option file that sets the option, as an example.
    pub open spec fn example(self) -> Seq<char> {
        match self {
            OptionName::Inputfile => "inputfile = \"picture.png\""@,
            OptionName::Outputfile => "outputfile = \"glitched.png\""@,
            OptionName::Times => "times = 3"@,
            OptionName::Mutations => "mutations = [[\"Void\"], [\"Chaos\", \"Reverse\"]]"@,
            OptionName::Iterations => "iterations = [1, 5]"@,
            OptionName::Chunksize => "chunksize = [100, 2000]"@,
            OptionName::Loops => "loops = [2, 10]"@,
            OptionName::IncreaseBy => "increase_by = [1, 50]"@,
            OptionName::AccelerateBy => "accelerate_by = [1, 4]"@,
            OptionName::AccelerateIn => "accelerate_in = [10, 200]"@,
            OptionName::MultiplyBy => "multiply_by = [0.5, 2.0]"@,
            OptionName::CompressBy => "compress_by = [2, 4]"@,
        }
    }

    /// A line of an option file that sets the option, as an example.
    pub fn example_text(self) -> (text: &'static str)
        ensures
            text@ == self.example(),
    {
        match self {
            OptionName::Inputfile => "inputfile = \"picture.png\"",
            OptionName::Outputfile => "outputfile = \"glitched.png\"",
            OptionName::Times => "times = 3",
            OptionName::Mutations => "mutations = [[\"Void\"], [\"Chaos\", \"Reverse\"]]",
            OptionName::Iterations => "iterations = [1, 5]",
            OptionName::Chunksize => "chunksize = [100, 2000]",
            OptionName::Loops => "loops = [2, 10]",
            OptionName::IncreaseBy => "increase_by = [1, 50]",
            OptionName::AccelerateBy => "accelerate_by = [1, 4]",
            OptionName::AccelerateIn => "accelerate_in = [10, 200]",
            OptionName::MultiplyBy => "multiply_by = [0.5, 2.0]",
            OptionName::CompressBy => "compress_by = [2, 4]",
        }
    }

    /// The key under which the option stands in the option tree.
    pub fn as_str(self) -> (text: &'static str)
        ensures
            text@ == self.key(),
    {
        match self {
            OptionName::Inputfile => "inputfile",
            OptionName::Outputfile => "outputfile",
            OptionName::Times => "times",
            OptionName::Mutations => "mutations",
            OptionName::Iterations => "iterations",
            OptionName::Chunksize => "chunksize",
            OptionName::Loops => "loops",
            OptionName::IncreaseBy => "increase_by",
            OptionName::AccelerateBy => "accelerate_by",
            OptionName::AccelerateIn => "accelerate_in",
            OptionName::MultiplyBy => "multiply_by",
            OptionName::CompressBy => "compress_by",
        }
    }
}

} // verus!
