//! Assembly as mathematics: what a text assembles to.
//!
//! The text is a flat run of whitespace-separated words. A word that begins
//! with `@` declares a function label and one that begins with `#` declares a
//! tag, both at the current end of the code. Any other word names an
//! instruction of the table; its opcode is emitted, and as many following
//! words as the table says are its operands. An operand that begins with `@`
//! or `#` stands for the offset of a label declared earlier in the text; any
//! other operand is an unsigned decimal number.
//!
//! [`assemble`] gives the image that a sequence of words adds to a starting
//! image, or the first error. It is defined through [`scan`], the state of
//! the assembler after a number of words, so that what holds of a text can
//! be said of its prefixes.

use vstd::prelude::*;
use crate::op::OP;
use crate::text::spec_parse_u64;

verus! {

/// A row of the instruction table as a mathematical value.
pub struct CommandView {
    pub name: Seq<char>,
    pub op: OP,
    pub arguments: nat,
}

/// A label as a mathematical value.
pub struct LabelView {
    pub name: Seq<char>,
    pub location: nat,
}

/// An assembly error as a mathematical value.
pub enum AssemblyErrorView {
    UnknownMnemonic(Seq<char>),
    InsufficientOperands(Seq<char>),
    UnresolvedLabel(Seq<char>),
    InvalidNumericOperand(Seq<char>),
    DuplicateLabel(Seq<char>),
    CodeOverflow,
}

/// What an assembly error says for itself.
pub open spec fn spec_message(error: AssemblyErrorView) -> Seq<char> {
    match error {
        AssemblyErrorView::UnknownMnemonic(word) => "No command found called `"@ + word + "`"@,
        AssemblyErrorView::InsufficientOperands(name) => "Not enough arguments for "@ + name,
        AssemblyErrorView::UnresolvedLabel(word) => if spec_starts_with(word, '@') {
            "Cannot find function '"@ + word + "'"@
        } else {
            "Cannot find tag '"@ + word + "'"@
        },
        AssemblyErrorView::InvalidNumericOperand(word) => "Cannot convert '"@ + word
            + "' to number"@,
        AssemblyErrorView::DuplicateLabel(word) => "Label '"@ + word + "' is declared twice"@,
        AssemblyErrorView::CodeOverflow => "Code capacity exceeded"@,
    }
}

/// What assembly produces: the code and the two label tables.
pub struct Image {
    pub code: Seq<u64>,
    pub functions: Seq<LabelView>,
    pub tags: Seq<LabelView>,
}

/// The assembler between two words.
pub struct Scan {
    /// What has been produced so far.
    pub image: Image,
    /// How many operands the last instruction still lacks.
    pub pending: nat,
    /// The mnemonic of the last instruction.
    pub command: Seq<char>,
}

/// Whether `word` begins with `marker`.
pub open spec fn spec_starts_with(word: Seq<char>, marker: char) -> bool {
    word.len() > 0 && word[0] == marker
}

/// The offset of the first label from index `from` on that is named `name`.
pub open spec fn find_label_from(labels: Seq<LabelView>, name: Seq<char>, from: int) -> Option<nat>
    decreases labels.len() - from,
{
    if from < 0 || from >= labels.len() {
        None
    } else if labels[from].name == name {
        Some(labels[from].location)
    } else {
        find_label_from(labels, name, from + 1)
    }
}

/// The offset of the label named `name`, if the table holds one.
pub open spec fn find_label(labels: Seq<LabelView>, name: Seq<char>) -> Option<nat> {
    find_label_from(labels, name, 0)
}

/// The index of the first row from index `from` on whose mnemonic is `name`.
pub open spec fn find_command_from(table: Seq<CommandView>, name: Seq<char>, from: int) -> Option<
    int,
>
    decreases table.len() - from,
{
    if from < 0 || from >= table.len() {
        None
    } else if table[from].name == name {
        Some(from)
    } else {
        find_command_from(table, name, from + 1)
    }
}

/// The index of the first row whose mnemonic is `name`, if there is one.
pub open spec fn find_command(table: Seq<CommandView>, name: Seq<char>) -> Option<int> {
    find_command_from(table, name, 0)
}

/// The word that the operand `word` stands for: the offset of the function
/// label or tag that it names, or else its value as a decimal number.
pub open spec fn operand_value(image: Image, word: Seq<char>) -> Result<u64, AssemblyErrorView> {
    if spec_starts_with(word, '@') {
        match find_label(image.functions, word) {
            Some(location) => Ok(location as u64),
            None => Err(AssemblyErrorView::UnresolvedLabel(word)),
        }
    } else if spec_starts_with(word, '#') {
        match find_label(image.tags, word) {
            Some(location) => Ok(location as u64),
            None => Err(AssemblyErrorView::UnresolvedLabel(word)),
        }
    } else {
        match spec_parse_u64(word) {
            Some(value) => Ok(value),
            None => Err(AssemblyErrorView::InvalidNumericOperand(word)),
        }
    }
}

/// The image with `value` appended to the code, unless the code is full.
pub open spec fn emit(image: Image, capacity: nat, value: u64) -> Result<Image, AssemblyErrorView> {
    if image.code.len() < capacity {
        Ok(Image { code: image.code.push(value), ..image })
    } else {
        Err(AssemblyErrorView::CodeOverflow)
    }
}

/// The label that a declaration of `name` makes: bound to the end of the code.
pub open spec fn declared(image: Image, name: Seq<char>) -> LabelView {
    LabelView { name, location: image.code.len() }
}

/// The assembler after the word `word`.
///
/// While operands are pending, `word` is an operand. Otherwise it declares a
/// function label, declares a tag, or names an instruction, in that order of
/// preference.
pub open spec fn scan_word(
    table: Seq<CommandView>,
    capacity: nat,
    before: Scan,
    word: Seq<char>,
) -> Result<Scan, AssemblyErrorView> {
    let image = before.image;
    if before.pending > 0 {
        match operand_value(image, word) {
            Err(e) => Err(e),
            Ok(value) => match emit(image, capacity, value) {
                Err(e) => Err(e),
                Ok(next) => Ok(
                    Scan { image: next, pending: (before.pending - 1) as nat, ..before },
                ),
            },
        }
    } else if spec_starts_with(word, '@') {
        if find_label(image.functions, word) is Some {
            Err(AssemblyErrorView::DuplicateLabel(word))
        } else {
            Ok(
                Scan {
                    image: Image { functions: image.functions.push(declared(image, word)), ..image },
                    ..before
                },
            )
        }
    } else if spec_starts_with(word, '#') {
        if find_label(image.tags, word) is Some {
            Err(AssemblyErrorView::DuplicateLabel(word))
        } else {
            Ok(
                Scan {
                    image: Image { tags: image.tags.push(declared(image, word)), ..image },
                    ..before
                },
            )
        }
    } else {
        match find_command(table, word) {
            None => Err(AssemblyErrorView::UnknownMnemonic(word)),
            Some(index) => match emit(image, capacity, table[index].op.spec_code()) {
                Err(e) => Err(e),
                Ok(next) => Ok(
                    Scan { image: next, pending: table[index].arguments, command: word },
                ),
            },
        }
    }
}

/// The assembler after the first `n` of `words`, started on `start` with no
/// operand pending. The first error ends the scan.
pub open spec fn scan(
    table: Seq<CommandView>,
    capacity: nat,
    start: Image,
    words: Seq<Seq<char>>,
    n: nat,
) -> Result<Scan, AssemblyErrorView>
    decreases n,
{
    if n == 0 {
        Ok(Scan { image: start, pending: 0, command: Seq::empty() })
    } else {
        match scan(table, capacity, start, words, (n - 1) as nat) {
            Err(e) => Err(e),
            Ok(before) => scan_word(table, capacity, before, words[n - 1]),
        }
    }
}

/// The image that `words` assemble to when added to `start`, or the first
/// error. A text that ends while operands are pending is an error.
pub open spec fn assemble(
    table: Seq<CommandView>,
    capacity: nat,
    start: Image,
    words: Seq<Seq<char>>,
) -> Result<Image, AssemblyErrorView> {
    match scan(table, capacity, start, words, words.len()) {
        Err(e) => Err(e),
        Ok(end) => if end.pending > 0 {
            Err(AssemblyErrorView::InsufficientOperands(end.command))
        } else {
            Ok(end.image)
        },
    }
}

/// Whether `later` holds everything that `earlier` holds, in the same places:
/// the code and both label tables of `earlier` are prefixes of those of `later`.
pub open spec fn extends(earlier: Image, later: Image) -> bool {
    &&& earlier.code.is_prefix_of(later.code)
    &&& earlier.functions.is_prefix_of(later.functions)
    &&& earlier.tags.is_prefix_of(later.tags)
}

/// A word only ever adds to the image: nothing emitted or declared before it
/// is changed or removed.
pub proof fn lemma_scan_word_extends(
    table: Seq<CommandView>,
    capacity: nat,
    before: Scan,
    word: Seq<char>,
)
    ensures
        match scan_word(table, capacity, before, word) {
            Ok(after) => extends(before.image, after.image),
            Err(_) => true,
        },
{
}

/// Once a scan has met an error, that error is its result however many more
/// words are counted in.
pub proof fn lemma_scan_error_lasts(
    table: Seq<CommandView>,
    capacity: nat,
    start: Image,
    words: Seq<Seq<char>>,
    n: nat,
    m: nat,
)
    requires
        n <= m,
        scan(table, capacity, start, words, n) is Err,
    ensures
        scan(table, capacity, start, words, m) == scan(table, capacity, start, words, n),
    decreases m - n,
{
    if n < m {
        lemma_scan_error_lasts(table, capacity, start, words, n, (m - 1) as nat);
    }
}

/// Whether no two labels of `labels` share a name.
pub open spec fn distinct_names(labels: Seq<LabelView>) -> bool {
    forall|i: int, j: int|
        0 <= i < j < labels.len() ==> (#[trigger] labels[i]).name != (#[trigger] labels[j]).name
}

/// Whether every label of `labels` points into the code or at its end.
pub open spec fn within_code(labels: Seq<LabelView>, code: Seq<u64>) -> bool {
    forall|i: int| 0 <= i < labels.len() ==> (#[trigger] labels[i]).location <= code.len()
}

impl Image {
    /// The invariant of an image: the code is within `capacity`, every label
    /// points into the code or at its end, and each table binds a name once.
    pub open spec fn wf(self, capacity: nat) -> bool {
        &&& self.code.len() <= capacity
        &&& within_code(self.functions, self.code)
        &&& within_code(self.tags, self.code)
        &&& distinct_names(self.functions)
        &&& distinct_names(self.tags)
    }
}

/// A table finds a name exactly when one of its labels has it, and then
/// gives the offset of the first such label.
pub proof fn lemma_find_label(labels: Seq<LabelView>, name: Seq<char>, from: int)
    requires
        0 <= from <= labels.len(),
    ensures
        find_label_from(labels, name, from) is None <==> forall|i: int|
            from <= i < labels.len() ==> (#[trigger] labels[i]).name != name,
        find_label_from(labels, name, from) is Some ==> exists|i: int|
            from <= i < labels.len() && (#[trigger] labels[i]).name == name && labels[i].location
                == find_label_from(labels, name, from)->Some_0,
    decreases labels.len() - from,
{
    if from < labels.len() {
        lemma_find_label(labels, name, from + 1);
        if labels[from].name != name {
            if find_label_from(labels, name, from) is Some {
                let i = choose|i: int|
                    from + 1 <= i < labels.len() && (#[trigger] labels[i]).name == name
                        && labels[i].location == find_label_from(labels, name, from + 1)->Some_0;
                assert(from <= i < labels.len() && labels[i].name == name);
            }
        }
    }
}

/// A table with one more label finds what it found before, and besides
/// that the name of the new label.
pub proof fn lemma_find_label_push(
    labels: Seq<LabelView>,
    label: LabelView,
    name: Seq<char>,
    from: int,
)
    requires
        0 <= from <= labels.len(),
    ensures
        find_label_from(labels.push(label), name, from) == match find_label_from(
            labels,
            name,
            from,
        ) {
            Some(location) => Some(location),
            None => if label.name == name {
                Some(label.location)
            } else {
                None
            },
        },
    decreases labels.len() - from,
{
    reveal_with_fuel(find_label_from, 2);
    if from < labels.len() {
        lemma_find_label_push(labels, label, name, from + 1);
    }
}

/// A word leaves a well-formed image well formed.
pub proof fn lemma_scan_word_wf(
    table: Seq<CommandView>,
    capacity: nat,
    before: Scan,
    word: Seq<char>,
)
    requires
        before.image.wf(capacity),
    ensures
        match scan_word(table, capacity, before, word) {
            Ok(after) => after.image.wf(capacity),
            Err(_) => true,
        },
{
    let image = before.image;
    lemma_find_label(image.functions, word, 0);
    lemma_find_label(image.tags, word, 0);
}

/// Assembly only ever adds. What a scan leaves holds the image it started
/// on, unchanged and in the same places, and is well formed if that was; and
/// every label it holds was either there at the start or is one of the words
/// scanned.
pub proof fn lemma_scan_extends(
    table: Seq<CommandView>,
    capacity: nat,
    start: Image,
    words: Seq<Seq<char>>,
    n: nat,
)
    requires
        n <= words.len(),
    ensures
        match scan(table, capacity, start, words, n) {
            Ok(end) => {
                &&& extends(start, end.image)
                &&& start.wf(capacity) ==> end.image.wf(capacity)
                &&& forall|name: Seq<char>| #[trigger]
                    find_label(end.image.functions, name) is Some ==> find_label(
                        start.functions,
                        name,
                    ) is Some || exists|j: int| 0 <= j < n && #[trigger] words[j] == name
                &&& forall|name: Seq<char>| #[trigger]
                    find_label(end.image.tags, name) is Some ==> find_label(start.tags, name)
                        is Some || exists|j: int| 0 <= j < n && #[trigger] words[j] == name
            },
            Err(_) => true,
        },
    decreases n,
{
    if n > 0 {
        lemma_scan_extends(table, capacity, start, words, (n - 1) as nat);
        if let Ok(before) = scan(table, capacity, start, words, (n - 1) as nat) {
            let word = words[n - 1];
            lemma_scan_word_extends(table, capacity, before, word);
            if start.wf(capacity) {
                lemma_scan_word_wf(table, capacity, before, word);
            }
            if let Ok(end) = scan_word(table, capacity, before, word) {
                assert forall|name: Seq<char>| #[trigger]
                    find_label(end.image.functions, name) is Some implies find_label(
                    start.functions,
                    name,
                ) is Some || exists|j: int| 0 <= j < n && #[trigger] words[j] == name by {
                    lemma_find_label_push(
                        before.image.functions,
                        declared(before.image, word),
                        name,
                        0,
                    );
                    if find_label(before.image.functions, name) is None {
                        assert(words[n - 1] == name);
                    } else if find_label(start.functions, name) is None {
                        let j = choose|j: int| 0 <= j < n - 1 && #[trigger] words[j] == name;
                        assert(0 <= j < n && words[j] == name);
                    }
                }
                assert forall|name: Seq<char>| #[trigger]
                    find_label(end.image.tags, name) is Some implies find_label(
                    start.tags,
                    name,
                ) is Some || exists|j: int| 0 <= j < n && #[trigger] words[j] == name by {
                    lemma_find_label_push(
                        before.image.tags,
                        declared(before.image, word),
                        name,
                        0,
                    );
                    if find_label(before.image.tags, name) is None {
                        assert(words[n - 1] == name);
                    } else if find_label(start.tags, name) is None {
                        let j = choose|j: int| 0 <= j < n - 1 && #[trigger] words[j] == name;
                        assert(0 <= j < n && words[j] == name);
                    }
                }
            }
        }
    }
}

/// What assembly returns holds the image it started on, unchanged and in the
/// same places: the write cursor only moves forward. If the start was well
/// formed, so is the result: the code is within the capacity, every label
/// points into it, and no name is bound twice.
pub proof fn lemma_assemble_extends(
    table: Seq<CommandView>,
    capacity: nat,
    start: Image,
    words: Seq<Seq<char>>,
)
    ensures
        match assemble(table, capacity, start, words) {
            Ok(image) => extends(start, image) && (start.wf(capacity) ==> image.wf(capacity)),
            Err(_) => true,
        },
{
    lemma_scan_extends(table, capacity, start, words, words.len());
}

/// Whether `word` refers to a label that `image` does not hold: it begins
/// with `@` and names no function label, or begins with `#` and names no tag.
pub open spec fn refers_to_missing_label(image: Image, word: Seq<char>) -> bool {
    if spec_starts_with(word, '@') {
        find_label(image.functions, word) is None
    } else {
        spec_starts_with(word, '#') && find_label(image.tags, word) is None
    }
}

/// An operand that refers to a label not declared before it makes assembly
/// fail with `UnresolvedLabel`, whatever follows it, a later declaration of
/// that label included.
///
/// `k` is the place of the operand among `words`: the words before it are
/// scanned without error and leave an instruction waiting for an operand.
/// The label is undeclared in that the start image does not hold it and no
/// word before the operand is equal to it.
pub proof fn lemma_undeclared_label_rejected(
    table: Seq<CommandView>,
    capacity: nat,
    start: Image,
    words: Seq<Seq<char>>,
    k: int,
)
    requires
        0 <= k < words.len(),
        scan(table, capacity, start, words, k as nat) is Ok,
        scan(table, capacity, start, words, k as nat)->Ok_0.pending > 0,
        spec_starts_with(words[k], '@') || spec_starts_with(words[k], '#'),
        refers_to_missing_label(start, words[k]),
        forall|j: int| 0 <= j < k ==> words[j] != words[k],
    ensures
        assemble(table, capacity, start, words) == Err::<Image, AssemblyErrorView>(
            AssemblyErrorView::UnresolvedLabel(words[k]),
        ),
{
    lemma_scan_extends(table, capacity, start, words, k as nat);
    let before = scan(table, capacity, start, words, k as nat)->Ok_0;
    assert(refers_to_missing_label(before.image, words[k])) by {
        if spec_starts_with(words[k], '@') {
            if find_label(before.image.functions, words[k]) is Some {
                let j = choose|j: int| 0 <= j < k && #[trigger] words[j] == words[k];
                assert(false);
            }
        } else {
            if find_label(before.image.tags, words[k]) is Some {
                let j = choose|j: int| 0 <= j < k && #[trigger] words[j] == words[k];
                assert(false);
            }
        }
    }
    assert(scan(table, capacity, start, words, (k + 1) as nat) == Err::<Scan, AssemblyErrorView>(
        AssemblyErrorView::UnresolvedLabel(words[k]),
    ));
    lemma_scan_error_lasts(table, capacity, start, words, (k + 1) as nat, words.len());
}

} // verus!
