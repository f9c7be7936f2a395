//! The assembler: from mnemonic text to a stream of machine words.
//!
//! [`Generator`] holds an instruction table and the image assembled so far,
//! and [`Generator::generate_byte_code`] adds the image of a text to it, as
//! [`crate::assembly::assemble`] defines it.

use vstd::prelude::*;
use vstd::string::*;
use crate::assembly::{
    assemble, declared, emit, extends, find_command, find_command_from, find_label,
    find_label_from, lemma_assemble_extends, lemma_scan_error_lasts, lemma_scan_word_extends,
    scan, scan_word, spec_message, spec_starts_with, AssemblyErrorView, CommandView, Image,
    LabelView, Scan,
};
use crate::op::OP;
use crate::text::{parse_u64, spec_words, split_whitespace, views};

verus! {

/// The number of words that the code of a generator made by
/// [`Generator::new`] may hold.
pub const DEFAULT_CODE_CAPACITY: usize = 1024;

/// One row of the instruction table.
pub struct OPCommand {
    pub name: String,
    pub op: OP,
    pub arguments: u32,
}

impl View for OPCommand {
    type V = CommandView;

    open spec fn view(&self) -> CommandView {
        CommandView { name: self.name@, op: self.op, arguments: self.arguments as nat }
    }
}

impl OPCommand {
    /// The row that gives mnemonic `name` the opcode of `op` and `arguments` operands.
    pub fn new(name: &str, op: OP, arguments: u32) -> (command: Self)
        ensures
            command@ == (CommandView { name: name@, op, arguments: arguments as nat }),
    {
        OPCommand { name: String::from_str(name), op, arguments }
    }
}

/// A name bound to a code offset.
pub struct Label {
    pub label: String,
    pub location: usize,
}

impl View for Label {
    type V = LabelView;

    open spec fn view(&self) -> LabelView {
        LabelView { name: self.label@, location: self.location as nat }
    }
}

impl Label {
    /// The label that binds `label` to `location`.
    pub fn new(label: String, location: usize) -> (l: Self)
        ensures
            l@ == (LabelView { name: label@, location: location as nat }),
            l.label == label,
            l.location == location,
    {
        Label { label, location }
    }
}

/// Why a text could not be assembled.
#[derive(Debug, PartialEq, Eq)]
pub enum AssemblyError {
    /// A word in instruction position that the table does not name.
    UnknownMnemonic(String),
    /// The text ended before the named instruction had all its operands.
    InsufficientOperands(String),
    /// An operand that refers to a label not declared before it.
    UnresolvedLabel(String),
    /// An operand that is neither a label reference nor an unsigned decimal
    /// number that fits a word.
    InvalidNumericOperand(String),
    /// A declaration of a label that the same table already holds.
    DuplicateLabel(String),
    /// The code is at its capacity and another word was to be emitted.
    CodeOverflow,
}

impl View for AssemblyError {
    type V = AssemblyErrorView;

    open spec fn view(&self) -> AssemblyErrorView {
        match self {
            AssemblyError::UnknownMnemonic(w) => AssemblyErrorView::UnknownMnemonic(w@),
            AssemblyError::InsufficientOperands(w) => AssemblyErrorView::InsufficientOperands(w@),
            AssemblyError::UnresolvedLabel(w) => AssemblyErrorView::UnresolvedLabel(w@),
            AssemblyError::InvalidNumericOperand(w) => AssemblyErrorView::InvalidNumericOperand(
                w@,
            ),
            AssemblyError::DuplicateLabel(w) => AssemblyErrorView::DuplicateLabel(w@),
            AssemblyError::CodeOverflow => AssemblyErrorView::CodeOverflow,
        }
    }
}

impl AssemblyError {
    /// What the error says for itself, for a person to read.
    pub fn message(&self) -> (text: String)
        ensures
            text@ == spec_message(self@),
    {
        match self {
            AssemblyError::UnknownMnemonic(word) => {
                let mut text = String::from_str("No command found called `");
                text.append(word.as_str());
                text.append("`");
                text
            },
            AssemblyError::InsufficientOperands(name) => {
                let mut text = String::from_str("Not enough arguments for ");
                text.append(name.as_str());
                text
            },
            AssemblyError::UnresolvedLabel(word) => {
                let mut text = if starts_with(word.as_str(), '@') {
                    String::from_str("Cannot find function '")
                } else {
                    String::from_str("Cannot find tag '")
                };
                text.append(word.as_str());
                text.append("'");
                text
            },
            AssemblyError::InvalidNumericOperand(word) => {
                let mut text = String::from_str("Cannot convert '");
                text.append(word.as_str());
                text.append("' to number");
                text
            },
            AssemblyError::DuplicateLabel(word) => {
                let mut text = String::from_str("Label '");
                text.append(word.as_str());
                text.append("' is declared twice");
                text
            },
            AssemblyError::CodeOverflow => String::from_str("Code capacity exceeded"),
        }
    }
}

/// The views of the rows of a table.
pub open spec fn command_views(table: Seq<OPCommand>) -> Seq<CommandView> {
    table.map_values(|c: OPCommand| c@)
}

/// The views of the labels of a table.
pub open spec fn label_views(labels: Seq<Label>) -> Seq<LabelView> {
    labels.map_values(|l: Label| l@)
}

/// Whether `word` begins with `marker`.
pub fn starts_with(word: &str, marker: char) -> (b: bool)
    ensures
        b == spec_starts_with(word@, marker),
{
    if word.is_empty() {
        false
    } else {
        word.get_char(0) == marker
    }
}

/// The offset of the label named `name` in `labels`, if there is one.
pub fn find_location(labels: &Vec<Label>, name: &String) -> (r: Option<usize>)
    ensures
        match find_label(label_views(labels@), name@) {
            Some(location) => r == Some(location as usize) && location <= usize::MAX,
            None => r is None,
        },
{
    let ghost views = label_views(labels@);
    let mut i: usize = 0;
    while i < labels.len()
        invariant
            i <= labels.len(),
            views == label_views(labels@),
            find_label(views, name@) == find_label_from(views, name@, i as int),
        decreases labels.len() - i,
    {
        if labels[i].label == *name {
            return Some(labels[i].location);
        }
        i += 1;
    }
    None
}

/// The assembler: an instruction table, and the code and labels produced so far.
pub struct Generator {
    pub instruction_set: Vec<OPCommand>,
    pub byte_code: Vec<u64>,
    /// How many words `byte_code` may hold.
    pub capacity: usize,
    pub functions: Vec<Label>,
    pub tags: Vec<Label>,
}

impl Generator {
    /// The instruction table as a mathematical value.
    pub open spec fn table(&self) -> Seq<CommandView> {
        command_views(self.instruction_set@)
    }

    /// What has been assembled so far.
    pub open spec fn image(&self) -> Image {
        Image {
            code: self.byte_code@,
            functions: label_views(self.functions@),
            tags: label_views(self.tags@),
        }
    }

    /// What assembling `source` on top of the present image gives.
    pub open spec fn spec_generate(&self, source: Seq<char>) -> Result<Image, AssemblyErrorView> {
        assemble(self.table(), self.capacity as nat, self.image(), spec_words(source))
    }

    /// Whether `after` and `r` are what assembling `source` makes of this
    /// generator: on success the image that `spec_generate` gives, on failure
    /// its error and the image as it was; the table and the capacity are kept.
    pub open spec fn generated(
        &self,
        source: Seq<char>,
        after: &Generator,
        r: Result<(), AssemblyError>,
    ) -> bool {
        &&& after.instruction_set == self.instruction_set
        &&& after.capacity == self.capacity
        &&& match self.spec_generate(source) {
            Ok(image) => r is Ok && after.image() == image,
            Err(e) => r is Err && r->Err_0@ == e && after.image() == self.image(),
        }
    }

    /// The invariant of a generator: that of its image, under its capacity.
    pub open spec fn wf(&self) -> bool {
        self.image().wf(self.capacity as nat)
    }

    /// An assembler for `instruction_set` with no code, no labels and the
    /// default capacity.
    pub fn new(instruction_set: Vec<OPCommand>) -> (generator: Self)
        ensures
            generator.instruction_set == instruction_set,
            generator.capacity == DEFAULT_CODE_CAPACITY,
            generator.image() == (Image {
                code: Seq::empty(),
                functions: Seq::empty(),
                tags: Seq::empty(),
            }),
            generator.wf(),
    {
        let generator = Generator {
            instruction_set,
            byte_code: Vec::new(),
            capacity: DEFAULT_CODE_CAPACITY,
            functions: Vec::new(),
            tags: Vec::new(),
        };
        assert(label_views(generator.functions@) =~= Seq::empty());
        assert(label_views(generator.tags@) =~= Seq::empty());
        generator
    }

    /// The offset of the function label `label`, if it has been declared.
    pub fn get_function_location(&self, label: &String) -> (r: Option<usize>)
        ensures
            match find_label(self.image().functions, label@) {
                Some(location) => r == Some(location as usize) && location <= usize::MAX,
                None => r is None,
            },
    {
        find_location(&self.functions, label)
    }

    /// The offset of the tag `label`, if it has been declared.
    pub fn get_tag_location(&self, label: &String) -> (r: Option<usize>)
        ensures
            match find_label(self.image().tags, label@) {
                Some(location) => r == Some(location as usize) && location <= usize::MAX,
                None => r is None,
            },
    {
        find_location(&self.tags, label)
    }

    /// The index of the first row of the table whose mnemonic is `word`.
    pub fn get_instruction_index(&self, word: &String) -> (r: Option<usize>)
        ensures
            match find_command(self.table(), word@) {
                Some(index) => r == Some(index as usize) && 0 <= index < self.instruction_set.len(),
                None => r is None,
            },
    {
        let ghost table = self.table();
        let mut i: usize = 0;
        while i < self.instruction_set.len()
            invariant
                i <= self.instruction_set.len(),
                table == self.table(),
                find_command(table, word@) == find_command_from(table, word@, i as int),
            decreases self.instruction_set.len() - i,
        {
            if self.instruction_set[i].name == *word {
                return Some(i);
            }
            i += 1;
        }
        None
    }

    /// Assembles `code` on top of what has been assembled so far.
    ///
    /// On success the code and the label tables hold what they held, followed
    /// by what `code` adds. On the first error assembly stops, and the code
    /// and the label tables are left as they were before the call.
    pub fn generate_byte_code(&mut self, code: &String) -> (r: Result<(), AssemblyError>)
        ensures
            old(self).generated(code@, final(self), r),
            old(self).wf() ==> final(self).wf(),
    {
        proof {
            lemma_assemble_extends(
                self.table(),
                self.capacity as nat,
                self.image(),
                spec_words(code@),
            );
        }
        let words = split_whitespace(code.as_str());
        let code_len: usize = self.byte_code.len();
        let functions_len: usize = self.functions.len();
        let tags_len: usize = self.tags.len();
        let ghost table = self.table();
        let ghost capacity = self.capacity as nat;
        let ghost start = self.image();
        let ghost mut state = Scan { image: start, pending: 0, command: Seq::empty() };
        let mut pending: u32 = 0;
        let mut command: usize = 0;
        let mut failure: Option<AssemblyError> = None;
        let mut i: usize = 0;
        while i < words.len() && failure.is_none()
            invariant
                i <= words.len(),
                views(words@) == spec_words(code@),
                self.instruction_set == old(self).instruction_set,
                self.capacity == old(self).capacity,
                table == self.table(),
                capacity == self.capacity,
                start == old(self).image(),
                code_len == start.code.len(),
                functions_len == start.functions.len(),
                tags_len == start.tags.len(),
                extends(start, self.image()),
                match failure {
                    None => {
                        &&& scan(table, capacity, start, views(words@), i as nat) == Ok::<
                            Scan,
                            AssemblyErrorView,
                        >(state)
                        &&& state.image == self.image()
                        &&& state.pending == pending
                        &&& pending > 0 ==> command < words.len() && state.command == views(
                            words@,
                        )[command as int]
                    },
                    Some(e) => assemble(table, capacity, start, views(words@)) == Err::<
                        Image,
                        AssemblyErrorView,
                    >(e@),
                },
            decreases words.len() - i + (if failure is None { 1nat } else { 0nat }),
        {
            let ghost word = views(words@)[i as int];
            assert(word == words@[i as int]@);
            proof {
                lemma_scan_word_extends(table, capacity, state, word);
            }
            match self.take_word(&words[i], pending, Ghost(state.command)) {
                Ok(next) => {
                    proof {
                        state = scan_word(table, capacity, state, word)->Ok_0;
                    }
                    if pending == 0 && next > 0 {
                        command = i;
                    }
                    pending = next;
                    i += 1;
                },
                Err(e) => {
                    proof {
                        lemma_scan_error_lasts(
                            table,
                            capacity,
                            start,
                            views(words@),
                            (i + 1) as nat,
                            words.len() as nat,
                        );
                    }
                    failure = Some(e);
                },
            }
        }
        if failure.is_none() && pending > 0 {
            failure = Some(AssemblyError::InsufficientOperands(words[command].clone()));
        }
        match failure {
            None => Ok(()),
            Some(e) => {
                self.byte_code.truncate(code_len);
                self.functions.truncate(functions_len);
                self.tags.truncate(tags_len);
                assert(self.image().code =~= start.code);
                assert(self.image().functions =~= start.functions);
                assert(self.image().tags =~= start.tags);
                Err(e)
            },
        }
    }

    /// Takes in one word of the text, with `pending` operands still owed to
    /// the last instruction, and returns how many are owed after it.
    fn take_word(&mut self, word: &String, pending: u32, command: Ghost<Seq<char>>) -> (r: Result<
        u32,
        AssemblyError,
    >)
        ensures
            final(self).instruction_set == old(self).instruction_set,
            final(self).capacity == old(self).capacity,
            match scan_word(
                old(self).table(),
                old(self).capacity as nat,
                Scan { image: old(self).image(), pending: pending as nat, command: command@ },
                word@,
            ) {
                Ok(after) => r is Ok && r->Ok_0 == after.pending && final(self).image()
                    == after.image,
                Err(e) => r is Err && r->Err_0@ == e && final(self).image() == old(self).image(),
            },
    {
        if pending > 0 {
            let value: u64 = if starts_with(word.as_str(), '@') {
                match self.get_function_location(word) {
                    Some(location) => location as u64,
                    None => {
                        return Err(AssemblyError::UnresolvedLabel(word.clone()));
                    },
                }
            } else if starts_with(word.as_str(), '#') {
                match self.get_tag_location(word) {
                    Some(location) => location as u64,
                    None => {
                        return Err(AssemblyError::UnresolvedLabel(word.clone()));
                    },
                }
            } else {
                match parse_u64(word.as_str()) {
                    Some(value) => value,
                    None => {
                        return Err(AssemblyError::InvalidNumericOperand(word.clone()));
                    },
                }
            };
            match self.put(value) {
                Ok(()) => Ok(pending - 1),
                Err(e) => Err(e),
            }
        } else if starts_with(word.as_str(), '@') {
            if self.get_function_location(word).is_some() {
                return Err(AssemblyError::DuplicateLabel(word.clone()));
            }
            let label = Label::new(word.clone(), self.byte_code.len());
            self.functions.push(label);
            assert(label_views(self.functions@) =~= label_views(old(self).functions@).push(
                declared(old(self).image(), word@),
            ));
            Ok(0)
        } else if starts_with(word.as_str(), '#') {
            if self.get_tag_location(word).is_some() {
                return Err(AssemblyError::DuplicateLabel(word.clone()));
            }
            let label = Label::new(word.clone(), self.byte_code.len());
            self.tags.push(label);
            assert(label_views(self.tags@) =~= label_views(old(self).tags@).push(
                declared(old(self).image(), word@),
            ));
            Ok(0)
        } else {
            match self.get_instruction_index(word) {
                None => Err(AssemblyError::UnknownMnemonic(word.clone())),
                Some(index) => {
                    let arguments: u32 = self.instruction_set[index].arguments;
                    let opcode: u64 = self.instruction_set[index].op.code();
                    match self.put(opcode) {
                        Ok(()) => Ok(arguments),
                        Err(e) => Err(e),
                    }
                },
            }
        }
    }

    /// Appends `value` to the code, unless the code is at its capacity.
    pub fn put(&mut self, value: u64) -> (r: Result<(), AssemblyError>)
        ensures
            final(self).instruction_set == old(self).instruction_set,
            final(self).capacity == old(self).capacity,
            final(self).functions == old(self).functions,
            final(self).tags == old(self).tags,
            match emit(old(self).image(), old(self).capacity as nat, value) {
                Ok(image) => r is Ok && final(self).image() == image,
                Err(e) => r is Err && r->Err_0@ == e && final(self).byte_code == old(
                    self,
                ).byte_code,
            },
    {
        if self.byte_code.len() >= self.capacity {
            return Err(AssemblyError::CodeOverflow);
        }
        self.byte_code.push(value);
        Ok(())
    }
}

/// Assembly is deterministic: two generators with the same table, capacity
/// and image, given the same source, end with the same code and the same
/// label tables, and succeed or fail alike, with the same error.
pub proof fn lemma_assembly_deterministic(
    first: Generator,
    second: Generator,
    source: Seq<char>,
    first_after: Generator,
    first_result: Result<(), AssemblyError>,
    second_after: Generator,
    second_result: Result<(), AssemblyError>,
)
    requires
        first.table() == second.table(),
        first.capacity == second.capacity,
        first.image() == second.image(),
        first.generated(source, &first_after, first_result),
        second.generated(source, &second_after, second_result),
    ensures
        first_after.image() == second_after.image(),
        first_result is Ok <==> second_result is Ok,
        first_result is Err ==> first_result->Err_0@ == second_result->Err_0@,
{
}

} // verus!
