//! The block of labelled lines in which one keypair is shown.

use vstd::prelude::*;
use vstd::string::StringExecFns;
use crate::base58::{base58, base58_decoded, lemma_base58_round_trip};
use crate::encode::encode;
use crate::json::{json_array, json_decoded, lemma_json_round_trip, to_json_array};
use crate::keypair::Keypair;
use crate::text::{count_words, decimal, decimal_string, word_count};

verus! {

/// What a line holds, for a front end that sets parts of a block in colour.
#[derive(Clone, Copy, Debug, PartialEq, Eq, Structural)]
pub enum Accent {
    /// Nothing to set off.
    Plain,
    /// The value is the title of the block.
    Title,
    /// The value is the address.
    Address,
    /// The value is the secret.
    Secret,
}

/// One line of a block: a label and, right after it, a value.
pub struct BlockLine {
    pub label: String,
    pub value: String,
    pub accent: Accent,
}

/// The contents of a [`BlockLine`].
pub ghost struct LineView {
    pub label: Seq<char>,
    pub value: Seq<char>,
    pub accent: Accent,
}

impl View for BlockLine {
    type V = LineView;

    open spec fn view(&self) -> LineView {
        LineView { label: self.label@, value: self.value@, accent: self.accent }
    }
}

impl BlockLine {
    /// The line as plain text.
    pub fn text(&self) -> (text: String)
        ensures
            text@ == self.label@ + self.value@,
    {
        let mut text = self.label.clone();
        text.append(self.value.as_str());
        text
    }
}

/// The contents of the lines of a block.
pub open spec fn lines_view(lines: Seq<BlockLine>) -> Seq<LineView> {
    Seq::new(lines.len(), |i: int| lines[i]@)
}

/// The title of the block with the number `index`.
pub open spec fn title_line(index: nat) -> LineView {
    LineView {
        label: Seq::empty(),
        value: "=== Keypair "@ + decimal(index) + " ==="@,
        accent: Accent::Title,
    }
}

/// The line that shows the mnemonic and says how many words it has.
pub open spec fn mnemonic_line(mnemonic: Seq<char>) -> LineView {
    LineView {
        label: "Mnemonic ("@ + decimal(word_count(mnemonic)) + " words): "@,
        value: mnemonic,
        accent: Accent::Plain,
    }
}

/// The four lines that show the 64 bytes of a keypair: the address, the
/// public key as a JSON array, the secret in Base58 and as a JSON array.
pub open spec fn key_lines(keypair: Seq<u8>) -> Seq<LineView> {
    seq![
        LineView {
            label: "Public address (Base58): "@,
            value: base58(keypair.subrange(32, 64)),
            accent: Accent::Address,
        },
        LineView {
            label: "Public key (JSON array, 32 bytes): "@,
            value: json_array(keypair.subrange(32, 64)),
            accent: Accent::Plain,
        },
        LineView {
            label: "Secret key (Base58, 64 bytes): "@,
            value: base58(keypair),
            accent: Accent::Secret,
        },
        LineView {
            label: "Secret key (JSON array, 64 bytes): "@,
            value: json_array(keypair),
            accent: Accent::Plain,
        },
    ]
}

/// The empty line that ends a block.
pub open spec fn blank_line() -> LineView {
    LineView { label: Seq::empty(), value: Seq::empty(), accent: Accent::Plain }
}

/// The lines of a block: the title, the mnemonic if there is one to show,
/// the four lines of the keypair, and an empty line.
pub open spec fn block_lines(index: nat, mnemonic: Option<Seq<char>>, keypair: Seq<u8>) -> Seq<
    LineView,
> {
    seq![title_line(index)] + match mnemonic {
        Some(m) => seq![mnemonic_line(m)],
        None => Seq::empty(),
    } + key_lines(keypair) + seq![blank_line()]
}

/// The text of an optional phrase.
pub open spec fn phrase_view(phrase: Option<&str>) -> Option<Seq<char>> {
    match phrase {
        Some(p) => Some(p@),
        None => None,
    }
}

fn labelled(label: &str, value: String, accent: Accent) -> (line: BlockLine)
    ensures
        line@ == (LineView { label: label@, value: value@, accent }),
{
    BlockLine { label: String::from_str(label), value, accent }
}

/// Lays out the block of the keypair with the number `index`.
pub fn full_block(keypair: &Keypair, mnemonic_for_display: Option<&str>, index: usize) -> (lines:
    Vec<BlockLine>)
    ensures
        lines_view(lines@) == block_lines(
            index as nat,
            phrase_view(mnemonic_for_display),
            keypair@,
        ),
{
    let encoded = encode(keypair);
    let mut lines: Vec<BlockLine> = Vec::new();

    let mut title = String::from_str("=== Keypair ");
    title.append(decimal_string(index).as_str());
    title.append(" ===");
    lines.push(BlockLine { label: String::new(), value: title, accent: Accent::Title });

    if let Some(m) = mnemonic_for_display {
        let mut label = String::from_str("Mnemonic (");
        label.append(decimal_string(count_words(m)).as_str());
        label.append(" words): ");
        lines.push(BlockLine { label, value: String::from_str(m), accent: Accent::Plain });
    }
    lines.push(labelled("Public address (Base58): ", encoded.address_base58, Accent::Address));
    lines.push(
        labelled(
            "Public key (JSON array, 32 bytes): ",
            to_json_array(&encoded.public_bytes),
            Accent::Plain,
        ),
    );
    lines.push(labelled("Secret key (Base58, 64 bytes): ", encoded.secret_base58, Accent::Secret));
    lines.push(
        labelled(
            "Secret key (JSON array, 64 bytes): ",
            to_json_array(&encoded.secret_bytes),
            Accent::Plain,
        ),
    );
    lines.push(BlockLine { label: String::new(), value: String::new(), accent: Accent::Plain });
    proof {
        let keys = key_lines(keypair@);
        let expected = block_lines(
            index as nat,
            phrase_view(mnemonic_for_display),
            keypair@,
        );
        let shown = lines_view(lines@);
        let offset: int = if mnemonic_for_display is Some {
            2
        } else {
            1
        };
        assert(shown =~= expected);
    }
    lines
}

/// What a block shows can be read back: the Base58 text of the secret
/// decodes to the 64 bytes of the keypair and the address to the 32 bytes of
/// the public key, and the two JSON arrays hold those 64 and 32 bytes.
pub proof fn lemma_key_lines_round_trip(keypair: Seq<u8>)
    requires
        keypair.len() == 64,
    ensures
        key_lines(keypair).len() == 4,
        base58_decoded(key_lines(keypair)[0].value) == Some(keypair.subrange(32, 64)),
        json_decoded(key_lines(keypair)[1].value) == Some(keypair.subrange(32, 64)),
        base58_decoded(key_lines(keypair)[2].value) == Some(keypair),
        json_decoded(key_lines(keypair)[3].value) == Some(keypair),
        keypair.subrange(32, 64).len() == 32,
{
    lemma_base58_round_trip(keypair);
    lemma_base58_round_trip(keypair.subrange(32, 64));
    lemma_json_round_trip(keypair);
    lemma_json_round_trip(keypair.subrange(32, 64));
}

} // verus!
