use vstd::prelude::*;

verus! {

/// `regex::Regex`, a compiled pattern. Nothing is known of what a value
/// holds: it is carried to the calls that use it.
#[verifier::external_type_specification]
#[verifier::external_body]
pub struct ExRegex(regex::Regex);

/// The pattern of decorative characters, in the syntax of the regex crate:
/// one character that is a pictograph or a part of one, but neither ASCII nor
/// a full stop, comma, exclamation mark or question mark of any width, nor an
/// ellipsis.
pub const DECORATIVE: &'static str = "[\\p{Emoji}\\p{Emoji_Presentation}\\p{Emoji_Modifier}\\p{Emoji_Modifier_Base}\
\\p{Emoji_Component}--\\p{Ascii}\\.,!\\?\\x{3002}\\x{3001}\\x{FF01}\\x{FF1F}\\x{2026}]";

/// Whether `c` is a decorative character: a pictograph, or a part of one
/// (a skin tone, a joiner, a variation selector), outside ASCII and outside
/// the punctuation that a message keeps.
///
/// This is what `regex::Regex::is_match` answers when the pattern of
/// [`RegexPatterns`] is asked about the text that holds `c` alone.
pub uninterp spec fn is_decorative(c: char) -> bool;

/// `text` without its decorative characters; the others keep their order.
pub open spec fn stripped(text: Seq<char>) -> Seq<char>
    decreases text.len(),
{
    if text.len() == 0 {
        text
    } else if is_decorative(text.last()) {
        stripped(text.drop_last())
    } else {
        stripped(text.drop_last()).push(text.last())
    }
}

/// No character of `text` is decorative.
pub open spec fn is_plain(text: Seq<char>) -> bool {
    forall|i: int| 0 <= i < text.len() ==> !is_decorative(#[trigger] text[i])
}

/// The compiled pattern that recognises decorative characters.
pub struct RegexPatterns {
    regex: regex::Regex,
}

impl RegexPatterns {
    /// Compiles the pattern with `regex::Regex::new`. The pattern is a
    /// constant that the regex crate accepts, so the result is always there;
    /// nothing else is claimed of it.
    #[verifier::external_body]
    pub fn new() -> Self {
        RegexPatterns { regex: regex::Regex::new(DECORATIVE).unwrap() }
    }

    /// Asks `regex::Regex::is_match` whether the pattern matches the text
    /// that consists of `c` alone. Every `RegexPatterns` holds the same
    /// pattern, so the answer depends on `c` only; the contract gives that
    /// answer its name and claims nothing more.
    #[verifier::external_body]
    fn matches(&self, c: char) -> (b: bool)
        ensures
            b == is_decorative(c),
    {
        let mut bytes = [0u8; 4];
        self.regex.is_match(c.encode_utf8(&mut bytes))
    }

    /// Removes every decorative character from `message`.
    pub fn clean_message(&self, message: &str) -> (cleaned: String)
        ensures
            cleaned@ == stripped(message@),
    {
        let mut cleaned = String::new();
        for c in it: message.chars()
            invariant
                it.seq() == message@,
                cleaned@ == stripped(message@.take(it.index())),
        {
            assert(message@.take(it.index() + 1).drop_last() == message@.take(it.index()));
            if !self.matches(c) {
                cleaned.push(c);
            }
        }
        assert(message@.take(message@.len() as int) == message@);
        cleaned
    }
}

/// `String::push` appends the character to the end of the text.
pub assume_specification[ String::push ](text: &mut String, c: char)
    ensures
        final(text)@ == old(text)@.push(c),
;

/// What `stripped` returns holds no decorative character.
pub proof fn lemma_stripped_is_plain(text: Seq<char>)
    ensures
        is_plain(stripped(text)),
    decreases text.len(),
{
    if text.len() > 0 {
        lemma_stripped_is_plain(text.drop_last());
    }
}

/// A text without decorative characters is left as it is.
pub proof fn lemma_stripped_keeps_plain(text: Seq<char>)
    requires
        is_plain(text),
    ensures
        stripped(text) == text,
    decreases text.len(),
{
    if text.len() > 0 {
        lemma_stripped_keeps_plain(text.drop_last());
        assert(!is_decorative(text[text.len() - 1]));
        assert(text.drop_last().push(text.last()) == text);
    }
}

/// Cleaning is idempotent: a cleaned text, cleaned again, does not change.
pub proof fn lemma_stripped_idempotent(text: Seq<char>)
    ensures
        stripped(stripped(text)) == stripped(text),
{
    lemma_stripped_is_plain(text);
    lemma_stripped_keeps_plain(stripped(text));
}

/// Cleaning never lengthens a text.
pub proof fn lemma_stripped_len(text: Seq<char>)
    ensures
        stripped(text).len() <= text.len(),
    decreases text.len(),
{
    if text.len() > 0 {
        lemma_stripped_len(text.drop_last());
    }
}

} // verus!
