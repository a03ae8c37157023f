//! The documents that the backends are loaded with.
//!
//! A document is a chain: every level but the last holds one word and one
//! child, and the last level holds the two fields that the workload aims at.
//! In a batch the documents at even positions carry the sentinel that read
//! queries match; the others carry a word in its place.

use vstd::prelude::*;
use vstd::string::StringExecFns;
use vstd::utf8::encode_utf8;
use vstd::utf8::is_ascii_chars;
use vstd::utf8::is_ascii_chars_encode_utf8;
use crate::benchmark::random::alphanumeric_text;
use crate::benchmark::random::lorem_word;
use crate::benchmark::random::sample_alphanumeric;
use crate::benchmark::random::sample_word;
use crate::text::decimal;
use crate::text::decimal_text;

verus! {

/// The length of every `write_target`, in bytes.
pub const WRITE_TARGET_BYTE_SIZE: usize = 16;

/// The most that is drawn from the generator at once.
pub const CHUNK_SIZE: usize = 32;

/// The value of `read_target` that marks a document as targetable.
pub open spec fn sentinel() -> Seq<char> {
    "read_target"@
}

/// One generated document, from its top level down.
#[derive(Debug)]
pub enum LogicalDocument {
    /// The last level.
    Leaf {
        /// The sentinel, or a word.
        read_target: String,
        /// The payload that updates overwrite.
        write_target: String,
    },
    /// A level above the last.
    Level {
        /// A word.
        field: String,
        /// The one child of this level.
        child: Box<LogicalDocument>,
    },
}

impl LogicalDocument {
    /// The number of levels from the top to the leaf.
    pub open spec fn depth(self) -> nat
        decreases self,
    {
        match self {
            LogicalDocument::Leaf { .. } => 1,
            LogicalDocument::Level { child, .. } => 1 + child.depth(),
        }
    }

    /// The `read_target` of the leaf.
    pub open spec fn read_target(self) -> Seq<char>
        decreases self,
    {
        match self {
            LogicalDocument::Leaf { read_target, .. } => read_target@,
            LogicalDocument::Level { child, .. } => child.read_target(),
        }
    }

    /// The `write_target` of the leaf.
    pub open spec fn write_target(self) -> Seq<char>
        decreases self,
    {
        match self {
            LogicalDocument::Leaf { write_target, .. } => write_target@,
            LogicalDocument::Level { child, .. } => child.write_target(),
        }
    }

    /// The words of the levels above the leaf, top level first.
    pub open spec fn fields(self) -> Seq<Seq<char>>
        decreases self,
    {
        match self {
            LogicalDocument::Leaf { .. } => Seq::empty(),
            LogicalDocument::Level { field, child } => seq![field@] + child.fields(),
        }
    }

    /// Whether read queries match the document.
    pub open spec fn targetable(self) -> bool {
        self.read_target() == sentinel()
    }

    /// What holds of a document that the generator made for the given depth
    /// and kind: it has that many levels; its payload has the fixed size, in
    /// characters and in bytes, and is alphanumeric; its `read_target` is the
    /// sentinel if it is to be targetable and a word if not; and the levels
    /// above the leaf each hold a word.
    pub open spec fn generated(self, depth: nat, targetable: bool) -> bool {
        &&& self.depth() == depth
        &&& self.fields().len() == depth - 1
        &&& forall|i: int| 0 <= i < self.fields().len() ==> lorem_word(#[trigger] self.fields()[i])
        &&& self.write_target().len() == WRITE_TARGET_BYTE_SIZE
        &&& encode_utf8(self.write_target()).len() == WRITE_TARGET_BYTE_SIZE
        &&& alphanumeric_text(self.write_target())
        &&& if targetable {
            self.read_target() == sentinel()
        } else {
            lorem_word(self.read_target())
        }
    }

    /// Whether the document has exactly `depth` levels.
    pub fn has_depth(&self, depth: usize) -> (yes: bool)
        ensures
            yes == (self.depth() == depth),
        decreases self,
    {
        match self {
            LogicalDocument::Leaf { .. } => depth == 1,
            LogicalDocument::Level { child, .. } => {
                proof {
                    lemma_depth_is_positive(**child);
                }
                depth >= 2 && child.has_depth(depth - 1)
            },
        }
    }

    /// The `read_target` of the leaf.
    pub fn leaf_read_target(&self) -> (text: &String)
        ensures
            text@ == self.read_target(),
        decreases self,
    {
        match self {
            LogicalDocument::Leaf { read_target, .. } => read_target,
            LogicalDocument::Level { child, .. } => child.leaf_read_target(),
        }
    }

    /// The `write_target` of the leaf.
    pub fn leaf_write_target(&self) -> (text: &String)
        ensures
            text@ == self.write_target(),
        decreases self,
    {
        match self {
            LogicalDocument::Leaf { write_target, .. } => write_target,
            LogicalDocument::Level { child, .. } => child.leaf_write_target(),
        }
    }

    /// Whether read queries match the document.
    pub fn is_targetable(&self) -> (yes: bool)
        ensures
            yes == self.targetable(),
    {
        let marker = String::from_str("read_target");
        *self.leaf_read_target() == marker
    }
}

/// How many of `docs` are targetable.
pub open spec fn targetable_count(docs: Seq<LogicalDocument>) -> nat
    decreases docs.len(),
{
    if docs.len() == 0 {
        0
    } else {
        targetable_count(docs.drop_last()) + if docs.last().targetable() {
            1nat
        } else {
            0nat
        }
    }
}

/// Every document has a leaf.
pub proof fn lemma_depth_is_positive(doc: LogicalDocument)
    ensures
        doc.depth() >= 1,
    decreases doc,
{
    match doc {
        LogicalDocument::Leaf { .. } => {},
        LogicalDocument::Level { child, .. } => {
            lemma_depth_is_positive(*child);
        },
    }
}

/// No word of the vocabulary is the sentinel: the sentinel has an underscore.
pub proof fn lemma_word_is_not_sentinel(word: Seq<char>)
    requires
        lorem_word(word),
    ensures
        word != sentinel(),
{
    reveal_strlit("read_target");
    if word == sentinel() {
        assert(word[4] == '_');
    }
}

/// Alphanumeric text takes one byte per character.
pub proof fn lemma_alphanumeric_bytes(s: Seq<char>)
    requires
        alphanumeric_text(s),
    ensures
        is_ascii_chars(s),
        encode_utf8(s).len() == s.len(),
{
    assert(is_ascii_chars(s));
    is_ascii_chars_encode_utf8(s);
}

/// Where documents at the even positions of a batch are targetable and the
/// others are not, half of the batch is targetable, rounded up.
pub proof fn lemma_half_are_targetable(docs: Seq<LogicalDocument>)
    requires
        forall|i: int| 0 <= i < docs.len() ==> ((#[trigger] docs[i]).targetable() <==> i % 2 == 0),
    ensures
        targetable_count(docs) == (docs.len() + 1) / 2,
        docs.len() - targetable_count(docs) == docs.len() / 2,
    decreases docs.len(),
{
    if docs.len() > 0 {
        let front = docs.drop_last();
        assert forall|i: int| 0 <= i < front.len() implies ((#[trigger] front[i]).targetable() <==> i
            % 2 == 0) by {
            assert(front[i] == docs[i]);
        }
        lemma_half_are_targetable(front);
    }
}

/// A random alphanumeric string of exactly `byte_size` bytes. It is drawn in
/// chunks of at most `CHUNK_SIZE` characters, the last chunk cut to what is
/// still missing.
pub fn generate_fixed_size_word(byte_size: usize) -> (word: String)
    ensures
        word@.len() == byte_size,
        encode_utf8(word@).len() == byte_size,
        alphanumeric_text(word@),
{
    let mut result = String::new();
    let mut filled: usize = 0;
    while filled < byte_size
        invariant
            filled <= byte_size,
            result@.len() == filled,
            alphanumeric_text(result@),
        decreases byte_size - filled,
    {
        let remaining: usize = byte_size - filled;
        let chunk_size: usize = if remaining < CHUNK_SIZE {
            remaining
        } else {
            CHUNK_SIZE
        };
        let chunk = sample_alphanumeric(chunk_size);
        result.append(chunk.as_str());
        filled = filled + chunk_size;
    }
    proof {
        lemma_alphanumeric_bytes(result@);
    }
    result
}

/// Builds the levels `current_depth` to `max_depth` of one document: a leaf
/// where the two are equal, and otherwise a level with a fresh word above
/// the rest of the chain.
pub fn build_level(
    current_depth: u8,
    max_depth: u8,
    use_specific_value: bool,
) -> (doc: LogicalDocument)
    requires
        1 <= current_depth <= max_depth,
    ensures
        doc.generated((max_depth - current_depth + 1) as nat, use_specific_value),
    decreases max_depth - current_depth,
{
    if current_depth == max_depth {
        let read_target = if use_specific_value {
            String::from_str("read_target")
        } else {
            sample_word()
        };
        let write_target = generate_fixed_size_word(WRITE_TARGET_BYTE_SIZE);
        LogicalDocument::Leaf { read_target, write_target }
    } else {
        let field = sample_word();
        let child = build_level(current_depth + 1, max_depth, use_specific_value);
        let doc = LogicalDocument::Level { field, child: Box::new(child) };
        assert(doc.fields() =~= seq![field@] + child.fields());
        doc
    }
}

/// A batch of `count` documents of `depth` levels each. The documents at
/// even positions, counted from zero, are targetable; the others are not.
pub fn generate_nested_data(depth: u8, count: usize) -> (docs: Vec<LogicalDocument>)
    requires
        depth >= 1,
    ensures
        docs@.len() == count,
        forall|i: int| 0 <= i < count ==> (#[trigger] docs@[i]).generated(depth as nat, i % 2 == 0),
        forall|i: int| 0 <= i < count ==> ((#[trigger] docs@[i]).targetable() <==> i % 2 == 0),
        targetable_count(docs@) == (count + 1) / 2,
{
    let mut docs: Vec<LogicalDocument> = Vec::new();
    let mut i: usize = 0;
    while i < count
        invariant
            depth >= 1,
            i <= count,
            docs@.len() == i,
            forall|k: int| 0 <= k < i ==> (#[trigger] docs@[k]).generated(depth as nat, k % 2 == 0),
            forall|k: int| 0 <= k < i ==> ((#[trigger] docs@[k]).targetable() <==> k % 2 == 0),
        decreases count - i,
    {
        let should_use_specific = i % 2 == 0;
        let doc = build_level(1, depth, should_use_specific);
        proof {
            if !should_use_specific {
                lemma_word_is_not_sentinel(doc.read_target());
            }
        }
        docs.push(doc);
        i = i + 1;
    }
    proof {
        lemma_half_are_targetable(docs@);
    }
    docs
}

/// The name of the file that holds the batch of a depth.
pub open spec fn fixture_file_name_text(depth: u8) -> Seq<char> {
    "data_depth_"@ + decimal(depth as nat) + ".json"@
}

/// The name of the file that holds the batch of a depth.
pub fn fixture_file_name(depth: u8) -> (name: String)
    ensures
        name@ == fixture_file_name_text(depth),
{
    let mut name = String::from_str("data_depth_");
    name.append(decimal_text(depth).as_str());
    name.append(".json");
    name
}

} // verus!
