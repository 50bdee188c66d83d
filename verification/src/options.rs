//! The option tree: a `cfgmap::CfgMap` made from the text of a TOML file, and
//! the values that the library reads out of it. The tree itself is opaque to
//! the verifier; the items here that touch it are assumed, not proved. What
//! they are assumed to give is stated over the contents of values, not over
//! the values themselves: two readings of one path give two values that hold
//! the same.

use crate::kind::KIND_COUNT;
use crate::kind::MutationKind;
use crate::kind::OptionName;
use cfgmap::CfgMap;
use cfgmap::CfgValue;
use vstd::prelude::*;
use vstd::string::StringExecFns;

verus! {

/// What the library reads of one value of the option tree.
#[derive(Debug)]
pub enum MutOptionVal {
    /// A string.
    OString(String),
    /// An integer.
    OInt(i64),
    /// A flag.
    OBool(bool),
    /// A list of values.
    OArray(Vec<MutOptionVal>),
    /// A fraction. Its value is not read: the library does no arithmetic on
    /// fractions.
    OFloat,
    /// A nested table. Its entries are read by their own paths.
    OMap,
    /// A value of a kind that the library does not read, such as a date.
    ONone,
}

/// What a value of the option tree holds, as contracts speak of it: a string
/// is its characters and a list is the contents of its values.
pub enum OptionContent {
    Text(Seq<char>),
    Int(i64),
    Flag(bool),
    List(Seq<OptionContent>),
    Fraction,
    Table,
    Other,
}

/// What a value holds.
pub open spec fn content_of(value: MutOptionVal) -> OptionContent
    decreases value,
{
    match value {
        MutOptionVal::OString(held) => OptionContent::Text(held@),
        MutOptionVal::OInt(x) => OptionContent::Int(x),
        MutOptionVal::OBool(b) => OptionContent::Flag(b),
        MutOptionVal::OArray(items) => OptionContent::List(
            Seq::new(
                items@.len(),
                |i: int|
                    if 0 <= i < items@.len() {
                        content_of(items@[i])
                    } else {
                        OptionContent::Other
                    },
            ),
        ),
        MutOptionVal::OFloat => OptionContent::Fraction,
        MutOptionVal::OMap => OptionContent::Table,
        MutOptionVal::ONone => OptionContent::Other,
    }
}

impl View for MutOptionVal {
    type V = OptionContent;

    open spec fn view(&self) -> OptionContent {
        content_of(*self)
    }
}

/// What a value holds, if there is a value.
pub open spec fn held(entry: Option<MutOptionVal>) -> Option<OptionContent> {
    match entry {
        Some(value) => Some(value@),
        None => None,
    }
}

/// The option tree of `cfgmap`.
#[verifier::external_type_specification]
#[verifier::external_body]
pub struct ExCfgMap(CfgMap);

/// A value of the option tree of `cfgmap`.
#[verifier::external_type_specification]
#[verifier::external_body]
pub struct ExCfgValue(CfgValue);

/// What an option tree holds: for each path, what the value found there
/// holds. A path is a key of the tree, or the key of a table, a slash and a
/// path inside that table.
pub uninterp spec fn cfg_entries(cfg: CfgMap) -> Map<Seq<char>, OptionContent>;

/// What the value at `path` in the tree holds, if there is one.
pub open spec fn cfg_value(cfg: CfgMap, path: Seq<char>) -> Option<OptionContent> {
    if cfg_entries(cfg).contains_key(path) {
        Some(cfg_entries(cfg)[path])
    } else {
        None
    }
}

/// A value of TOML, as `toml` holds it.
#[verifier::external_type_specification]
#[verifier::external_body]
pub struct ExTomlValue(toml::Value);

/// What a text describes as TOML: for each path of the table that the
/// document is, what the value found there holds. A text that is no TOML
/// document, or whose document is no table, describes nothing.
pub uninterp spec fn toml_entries(text: Seq<char>) -> Option<Map<Seq<char>, OptionContent>>;

/// What a value of TOML holds where it is a table: for each of its paths,
/// what the value found there holds. A value that is no table holds nothing
/// of the kind.
pub uninterp spec fn toml_held(value: toml::Value) -> Option<Map<Seq<char>, OptionContent>>;

/// `toml::from_str` to a `toml::Value`: the value that the text describes,
/// or nothing where the text is no TOML. The value is a table that holds what
/// the text describes, where the text describes a table.
#[verifier::external_body]
pub(crate) fn parse_toml(text: &str) -> (parsed: Option<toml::Value>)
    ensures
        match toml_entries(text@) {
            Some(held) => parsed is Some && toml_held(parsed->0) == Some(held),
            None => parsed is Some ==> toml_held(parsed->0) is None,
        },
{
    toml::from_str::<toml::Value>(text).ok()
}

/// `CfgMap::from_toml`: the tree that holds what a table of TOML holds. The
/// outside function panics on a value that is no table, so only a table is
/// handed to it, and any other value gives no tree.
#[verifier::external_body]
pub(crate) fn tree_of(value: toml::Value) -> (tree: Option<CfgMap>)
    ensures
        match toml_held(value) {
            Some(held) => tree is Some && cfg_entries(tree->0) == held,
            None => tree is None,
        },
{
    match value {
        table @ toml::Value::Table(_) => Some(CfgMap::from_toml(table)),
        _ => None,
    }
}

/// The tree that a TOML text describes: there is one exactly where the text
/// describes a table, and it holds what the text describes.
pub(crate) fn parse_tree(text: &str) -> (tree: Option<CfgMap>)
    ensures
        match toml_entries(text@) {
            Some(held) => tree is Some && cfg_entries(tree->0) == held,
            None => tree is None,
        },
{
    match parse_toml(text) {
        Some(value) => tree_of(value),
        None => None,
    }
}

/// Tells the variants of a `CfgValue` apart and copies out what each holds.
#[verifier::external_body]
pub(crate) fn read_value(value: &CfgValue) -> MutOptionVal {
    match value {
        CfgValue::Int(x) => MutOptionVal::OInt(*x),
        CfgValue::Str(s) => MutOptionVal::OString(s.clone()),
        CfgValue::Bool(b) => MutOptionVal::OBool(*b),
        CfgValue::List(l) => MutOptionVal::OArray(l.iter().map(read_value).collect()),
        CfgValue::Map(_) => MutOptionVal::OMap,
        CfgValue::Float(_) => MutOptionVal::OFloat,
        CfgValue::Datetime(_) => MutOptionVal::ONone,
    }
}

/// `CfgMap::get`: the value at `path`, with the path syntax of `cfgmap`,
/// copied out by `read_value`. A value comes back exactly where the tree has
/// one at the path, and it holds what the tree holds there.
#[verifier::external_body]
pub(crate) fn lookup(cfg: &CfgMap, path: &str) -> (found: Option<MutOptionVal>)
    ensures
        match found {
            Some(value) => cfg_entries(*cfg).contains_key(path@) && cfg_entries(*cfg)[path@]
                == value@,
            None => !cfg_entries(*cfg).contains_key(path@),
        },
{
    cfg.get(path).map(read_value)
}

/// The characters of each string of a list.
pub open spec fn texts_of(held: Seq<String>) -> Seq<Seq<char>> {
    Seq::new(held.len(), |i: int| held[i]@)
}

/// The characters of each string of a list of lists.
pub open spec fn names_of(held: Seq<Vec<String>>) -> Seq<Seq<Seq<char>>> {
    Seq::new(held.len(), |i: int| texts_of(held[i]@))
}

impl OptionContent {
    /// The numbers that the contents declare: those of a list of integers,
    /// or the one of a single integer. Any other contents declare none.
    pub open spec fn numbers(self) -> Option<Seq<i64>> {
        match self {
            OptionContent::Int(x) => Some(seq![x]),
            OptionContent::List(items) => if forall|i: int|
                0 <= i < items.len() ==> #[trigger] items[i] is Int {
                Some(Seq::new(items.len(), |i: int| items[i]->Int_0))
            } else {
                None
            },
            _ => None,
        }
    }

    /// How many fractions the contents declare: those of a list of
    /// fractions, or the one of a single fraction. Any other contents declare
    /// none.
    pub open spec fn fractions(self) -> Option<nat> {
        match self {
            OptionContent::Fraction => Some(1),
            OptionContent::List(items) => if forall|i: int|
                0 <= i < items.len() ==> #[trigger] items[i] is Fraction {
                Some(items.len())
            } else {
                None
            },
            _ => None,
        }
    }

    /// The characters of the contents, if they are those of a string.
    pub open spec fn text(self) -> Option<Seq<char>> {
        match self {
            OptionContent::Text(held) => Some(held),
            _ => None,
        }
    }

    /// The strings of the contents, if they are those of a list of strings.
    pub open spec fn texts(self) -> Option<Seq<Seq<char>>> {
        match self {
            OptionContent::List(items) => if forall|i: int|
                0 <= i < items.len() ==> #[trigger] items[i] is Text {
                Some(Seq::new(items.len(), |i: int| items[i]->Text_0))
            } else {
                None
            },
            _ => None,
        }
    }

    /// The lists of strings of the contents, if they are those of a list of
    /// such lists.
    pub open spec fn names(self) -> Option<Seq<Seq<Seq<char>>>> {
        match self {
            OptionContent::List(rows) => if forall|i: int|
                0 <= i < rows.len() ==> (#[trigger] rows[i]).texts() is Some {
                Some(Seq::new(rows.len(), |i: int| rows[i].texts()->0))
            } else {
                None
            },
            _ => None,
        }
    }
}

/// A list holds the contents of its values, one for one.
pub proof fn lemma_list_content(items: Vec<MutOptionVal>)
    ensures
        content_of(MutOptionVal::OArray(items)) is List,
        content_of(MutOptionVal::OArray(items))->List_0.len() == items@.len(),
        forall|i: int|
            0 <= i < items@.len() ==> #[trigger] content_of(MutOptionVal::OArray(items))->List_0[i]
                == content_of(items@[i]),
{
}

impl MutOptionVal {
    /// The numbers that the value declares: those of a list of integers, or
    /// the one of a single integer. Any other value declares none.
    pub open spec fn numbers(self) -> Option<Seq<i64>> {
        self@.numbers()
    }

    /// How many fractions the value declares: those of a list of fractions,
    /// or the one of a single fraction. Any other value declares none.
    pub open spec fn fractions(self) -> Option<nat> {
        self@.fractions()
    }

    /// The characters of the value, if it is a string.
    pub open spec fn text(self) -> Option<Seq<char>> {
        self@.text()
    }

    /// The strings of the value, if it is a list of strings.
    pub open spec fn texts(self) -> Option<Seq<Seq<char>>> {
        self@.texts()
    }

    /// The lists of strings of the value, if it is a list of such lists.
    pub open spec fn names(self) -> Option<Seq<Seq<Seq<char>>>> {
        self@.names()
    }

    /// The numbers that the value declares.
    #[verifier::loop_isolation(false)]
    pub fn read_numbers(&self) -> (found: Option<Vec<i64>>)
        ensures
            found is Some <==> self.numbers() is Some,
            found matches Some(values) ==> values@ == self.numbers()->0,
    {
        match self {
            MutOptionVal::OInt(x) => {
                let mut values: Vec<i64> = Vec::new();
                values.push(*x);
                assert(values@ =~= seq![*x]);
                Some(values)
            },
            MutOptionVal::OArray(items) => {
                let ghost list = self@->List_0;
                proof {
                    lemma_list_content(*items);
                }
                let mut values: Vec<i64> = Vec::new();
                let mut k: usize = 0;
                while k < items.len()
                    invariant
                        k <= items@.len(),
                        values@.len() == k,
                        forall|i: int| 0 <= i < k ==> #[trigger] items@[i] is OInt,
                        forall|i: int| 0 <= i < k ==> values@[i] == items@[i]->OInt_0,
                    decreases items@.len() - k,
                {
                    match &items[k] {
                        MutOptionVal::OInt(x) => { values.push(*x); },
                        _ => {
                            assert(!(list[k as int] is Int));
                            return None;
                        },
                    }
                    k += 1;
                }
                proof {
                    assert forall|i: int| 0 <= i < list.len() implies #[trigger] list[i] is Int
                        && list[i]->Int_0 == values@[i] by {
                        assert(items@[i] is OInt);
                    }
                    assert(values@ =~= self.numbers()->0);
                }
                Some(values)
            },
            _ => None,
        }
    }

    /// How many fractions the value declares.
    #[verifier::loop_isolation(false)]
    pub fn count_fractions(&self) -> (found: Option<usize>)
        ensures
            found is Some <==> self.fractions() is Some,
            found matches Some(count) ==> count == self.fractions()->0,
    {
        match self {
            MutOptionVal::OFloat => Some(1),
            MutOptionVal::OArray(items) => {
                let ghost list = self@->List_0;
                proof {
                    lemma_list_content(*items);
                }
                let mut k: usize = 0;
                while k < items.len()
                    invariant
                        k <= items@.len(),
                        forall|i: int| 0 <= i < k ==> #[trigger] items@[i] is OFloat,
                    decreases items@.len() - k,
                {
                    match &items[k] {
                        MutOptionVal::OFloat => {},
                        _ => {
                            assert(!(list[k as int] is Fraction));
                            return None;
                        },
                    }
                    k += 1;
                }
                proof {
                    assert forall|i: int| 0 <= i < list.len() implies #[trigger] list[i]
                        is Fraction by {
                        assert(items@[i] is OFloat);
                    }
                }
                Some(items.len())
            },
            _ => None,
        }
    }

    /// The characters of the value, if it is a string.
    pub fn read_text(&self) -> (found: Option<String>)
        ensures
            found is Some <==> self.text() is Some,
            found matches Some(held) ==> held@ == self.text()->0,
    {
        match self {
            MutOptionVal::OString(held) => Some(held.clone()),
            _ => None,
        }
    }

    /// The strings of the value, if it is a list of strings.
    #[verifier::loop_isolation(false)]
    pub fn read_texts(&self) -> (found: Option<Vec<String>>)
        ensures
            found is Some <==> self.texts() is Some,
            found matches Some(held) ==> texts_of(held@) == self.texts()->0,
    {
        match self {
            MutOptionVal::OArray(items) => {
                let ghost list = self@->List_0;
                proof {
                    lemma_list_content(*items);
                }
                let mut held: Vec<String> = Vec::new();
                let mut k: usize = 0;
                while k < items.len()
                    invariant
                        k <= items@.len(),
                        held@.len() == k,
                        forall|i: int| 0 <= i < k ==> #[trigger] items@[i] is OString,
                        forall|i: int| 0 <= i < k ==> held@[i]@ == items@[i]->OString_0@,
                    decreases items@.len() - k,
                {
                    match &items[k] {
                        MutOptionVal::OString(text) => { held.push(text.clone()); },
                        _ => {
                            assert(!(list[k as int] is Text));
                            return None;
                        },
                    }
                    k += 1;
                }
                proof {
                    assert forall|i: int| 0 <= i < list.len() implies #[trigger] list[i] is Text
                        && list[i]->Text_0 == held@[i]@ by {
                        assert(items@[i] is OString);
                    }
                    assert(texts_of(held@) =~= self.texts()->0);
                }
                Some(held)
            },
            _ => None,
        }
    }

    /// The lists of strings of the value, if it is a list of such lists.
    #[verifier::loop_isolation(false)]
    pub fn read_names(&self) -> (found: Option<Vec<Vec<String>>>)
        ensures
            found is Some <==> self.names() is Some,
            found matches Some(held) ==> names_of(held@) == self.names()->0,
    {
        match self {
            MutOptionVal::OArray(rows) => {
                let ghost list = self@->List_0;
                proof {
                    lemma_list_content(*rows);
                }
                let mut held: Vec<Vec<String>> = Vec::new();
                let mut k: usize = 0;
                while k < rows.len()
                    invariant
                        k <= rows@.len(),
                        held@.len() == k,
                        forall|i: int| 0 <= i < k ==> (#[trigger] rows@[i]).texts() is Some,
                        forall|i: int| 0 <= i < k ==> texts_of(held@[i]@) == rows@[i].texts()->0,
                    decreases rows@.len() - k,
                {
                    match rows[k].read_texts() {
                        Some(row) => { held.push(row); },
                        None => {
                            assert(list[k as int].texts() is None);
                            return None;
                        },
                    }
                    k += 1;
                }
                proof {
                    assert forall|i: int| 0 <= i < list.len() implies (#[trigger] list[i]).texts()
                        == Some(texts_of(held@[i]@)) by {
                        assert(rows@[i].texts() is Some);
                    }
                    assert(names_of(held@) =~= self.names()->0);
                }
                Some(held)
            },
            _ => None,
        }
    }
}

/// The options that a table of the tree holds for one kind of mutation, as
/// far as the library reads them.
#[derive(Debug)]
pub struct RawBlock {
    pub iterations: Option<MutOptionVal>,
    pub chunksize: Option<MutOptionVal>,
    pub loops: Option<MutOptionVal>,
    pub increase_by: Option<MutOptionVal>,
    pub accelerate_by: Option<MutOptionVal>,
    pub accelerate_in: Option<MutOptionVal>,
    pub multiply_by: Option<MutOptionVal>,
    pub compress_by: Option<MutOptionVal>,
}

/// The options that are read out of a tree: those of the run, and for each
/// kind of mutation, in the order of kinds, those of its own table.
#[derive(Debug)]
pub struct RawOptions {
    pub inputfile: Option<MutOptionVal>,
    pub outputfile: Option<MutOptionVal>,
    pub times: Option<MutOptionVal>,
    pub mutations: Option<MutOptionVal>,
    pub iterations: Option<MutOptionVal>,
    pub chunksize: Option<MutOptionVal>,
    pub blocks: Vec<RawBlock>,
}

impl RawBlock {
    /// The value that the block holds for `option`.
    pub open spec fn entry(self, option: OptionName) -> Option<MutOptionVal> {
        match option {
            OptionName::Iterations => self.iterations,
            OptionName::Chunksize => self.chunksize,
            OptionName::Loops => self.loops,
            OptionName::IncreaseBy => self.increase_by,
            OptionName::AccelerateBy => self.accelerate_by,
            OptionName::AccelerateIn => self.accelerate_in,
            OptionName::MultiplyBy => self.multiply_by,
            OptionName::CompressBy => self.compress_by,
            _ => None,
        }
    }

    /// A block that holds no value.
    pub fn empty() -> (block: RawBlock)
        ensures
            forall|option: OptionName| block.entry(option) is None,
    {
        RawBlock {
            iterations: None,
            chunksize: None,
            loops: None,
            increase_by: None,
            accelerate_by: None,
            accelerate_in: None,
            multiply_by: None,
            compress_by: None,
        }
    }
}

impl RawOptions {
    /// The value that the table of `kind` holds for `option`. A kind without
    /// a block holds none.
    pub open spec fn entry(self, kind: MutationKind, option: OptionName) -> Option<MutOptionVal> {
        if kind.ordinal() < self.blocks@.len() {
            self.blocks@[kind.ordinal()].entry(option)
        } else {
            None
        }
    }

    /// The value that the table of `kind` holds for `option`.
    pub fn get(&self, kind: MutationKind, option: OptionName) -> (found: Option<&MutOptionVal>)
        ensures
            match self.entry(kind, option) {
                Some(value) => found == Some(&value),
                None => found is None,
            },
    {
        let place = kind.index();
        if place >= self.blocks.len() {
            return None;
        }
        let block = &self.blocks[place];
        let held = match option {
            OptionName::Iterations => &block.iterations,
            OptionName::Chunksize => &block.chunksize,
            OptionName::Loops => &block.loops,
            OptionName::IncreaseBy => &block.increase_by,
            OptionName::AccelerateBy => &block.accelerate_by,
            OptionName::AccelerateIn => &block.accelerate_in,
            OptionName::MultiplyBy => &block.multiply_by,
            OptionName::CompressBy => &block.compress_by,
            _ => { return None; },
        };
        match held {
            Some(value) => Some(value),
            None => None,
        }
    }

    /// Options without any value.
    pub fn empty() -> (raw: RawOptions)
        ensures
            raw.inputfile is None,
            raw.outputfile is None,
            raw.times is None,
            raw.mutations is None,
            raw.iterations is None,
            raw.chunksize is None,
            raw.blocks@.len() == 0,
    {
        RawOptions {
            inputfile: None,
            outputfile: None,
            times: None,
            mutations: None,
            iterations: None,
            chunksize: None,
            blocks: Vec::new(),
        }
    }
}

/// The path of an option inside the table of a kind.
pub open spec fn block_path(kind: MutationKind, option: OptionName) -> Seq<char> {
    kind.block() + "/"@ + option.key()
}

/// Reads the option `option` of the table of `kind`.
fn read_entry(tree: &CfgMap, kind: MutationKind, option: OptionName) -> (found: Option<MutOptionVal>)
    ensures
        held(found) == cfg_value(*tree, block_path(kind, option)),
{
    let mut path = String::from_str(kind.block_name());
    path.append("/");
    path.append(option.as_str());
    lookup(tree, path.as_str())
}

/// Reads the table of `kind`.
fn read_block(tree: &CfgMap, kind: MutationKind) -> (block: RawBlock)
    ensures
        held(block.iterations) == cfg_value(*tree, block_path(kind, OptionName::Iterations)),
        held(block.chunksize) == cfg_value(*tree, block_path(kind, OptionName::Chunksize)),
        held(block.loops) == cfg_value(*tree, block_path(kind, OptionName::Loops)),
        held(block.increase_by) == cfg_value(*tree, block_path(kind, OptionName::IncreaseBy)),
        held(block.accelerate_by) == cfg_value(*tree, block_path(kind, OptionName::AccelerateBy)),
        held(block.accelerate_in) == cfg_value(*tree, block_path(kind, OptionName::AccelerateIn)),
        held(block.multiply_by) == cfg_value(*tree, block_path(kind, OptionName::MultiplyBy)),
        held(block.compress_by) == cfg_value(*tree, block_path(kind, OptionName::CompressBy)),
{
    RawBlock {
        iterations: read_entry(tree, kind, OptionName::Iterations),
        chunksize: read_entry(tree, kind, OptionName::Chunksize),
        loops: read_entry(tree, kind, OptionName::Loops),
        increase_by: read_entry(tree, kind, OptionName::IncreaseBy),
        accelerate_by: read_entry(tree, kind, OptionName::AccelerateBy),
        accelerate_in: read_entry(tree, kind, OptionName::AccelerateIn),
        multiply_by: read_entry(tree, kind, OptionName::MultiplyBy),
        compress_by: read_entry(tree, kind, OptionName::CompressBy),
    }
}

/// Whether `raw` holds what the tree holds: each option of the run holds
/// what the value at its key holds, and each option of a kind what the value
/// at its path in the table of the kind holds.
pub open spec fn read_from(raw: RawOptions, tree: CfgMap) -> bool {
    &&& held(raw.inputfile) == cfg_value(tree, OptionName::Inputfile.key())
    &&& held(raw.outputfile) == cfg_value(tree, OptionName::Outputfile.key())
    &&& held(raw.times) == cfg_value(tree, OptionName::Times.key())
    &&& held(raw.mutations) == cfg_value(tree, OptionName::Mutations.key())
    &&& held(raw.iterations) == cfg_value(tree, OptionName::Iterations.key())
    &&& held(raw.chunksize) == cfg_value(tree, OptionName::Chunksize.key())
    &&& raw.blocks@.len() == KIND_COUNT
    &&& forall|place: int|
        #![trigger raw.blocks@[place]]
        0 <= place < KIND_COUNT ==> {
            let kind = MutationKind::at(place);
            let block = raw.blocks@[place];
            &&& held(block.iterations) == cfg_value(tree, block_path(kind, OptionName::Iterations))
            &&& held(block.chunksize) == cfg_value(tree, block_path(kind, OptionName::Chunksize))
            &&& held(block.loops) == cfg_value(tree, block_path(kind, OptionName::Loops))
            &&& held(block.increase_by) == cfg_value(tree, block_path(kind, OptionName::IncreaseBy))
            &&& held(block.accelerate_by) == cfg_value(tree, block_path(kind, OptionName::AccelerateBy))
            &&& held(block.accelerate_in) == cfg_value(tree, block_path(kind, OptionName::AccelerateIn))
            &&& held(block.multiply_by) == cfg_value(tree, block_path(kind, OptionName::MultiplyBy))
            &&& held(block.compress_by) == cfg_value(tree, block_path(kind, OptionName::CompressBy))
        }
}

/// Reads out of the tree every option that the library knows.
pub fn read_options(tree: &CfgMap) -> (raw: RawOptions)
    ensures
        read_from(raw, *tree),
{
    let mut blocks: Vec<RawBlock> = Vec::new();
    let mut place: usize = 0;
    while place < KIND_COUNT
        invariant
            place <= KIND_COUNT,
            blocks@.len() == place,
            forall|before: int|
                #![trigger blocks@[before]]
                0 <= before < place ==> {
                    let kind = MutationKind::at(before);
                    let block = blocks@[before];
                    &&& held(block.iterations) == cfg_value(
                        *tree,
                        block_path(kind, OptionName::Iterations),
                    )
                    &&& held(block.chunksize) == cfg_value(*tree, block_path(kind, OptionName::Chunksize))
                    &&& held(block.loops) == cfg_value(*tree, block_path(kind, OptionName::Loops))
                    &&& held(block.increase_by) == cfg_value(
                        *tree,
                        block_path(kind, OptionName::IncreaseBy),
                    )
                    &&& held(block.accelerate_by) == cfg_value(
                        *tree,
                        block_path(kind, OptionName::AccelerateBy),
                    )
                    &&& held(block.accelerate_in) == cfg_value(
                        *tree,
                        block_path(kind, OptionName::AccelerateIn),
                    )
                    &&& held(block.multiply_by) == cfg_value(
                        *tree,
                        block_path(kind, OptionName::MultiplyBy),
                    )
                    &&& held(block.compress_by) == cfg_value(
                        *tree,
                        block_path(kind, OptionName::CompressBy),
                    )
                },
        decreases KIND_COUNT - place,
    {
        blocks.push(read_block(tree, MutationKind::from_index(place)));
        place += 1;
    }
    RawOptions {
        inputfile: lookup(tree, OptionName::Inputfile.as_str()),
        outputfile: lookup(tree, OptionName::Outputfile.as_str()),
        times: lookup(tree, OptionName::Times.as_str()),
        mutations: lookup(tree, OptionName::Mutations.as_str()),
        iterations: lookup(tree, OptionName::Iterations.as_str()),
        chunksize: lookup(tree, OptionName::Chunksize.as_str()),
        blocks,
    }
}

} // verus!
