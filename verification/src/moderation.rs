//! The rules by which messages in the joined groups are answered: who is not
//! answered at all, who is answered as a known scammer, and which text
//! counts as a scam.

use vstd::prelude::*;
use vstd::string::StringSliceAdditionalSpecFns;
use vstd::utf8::encode_utf8;

verus! {

/// What a message's chat and sender come to before its text is read.
#[derive(Clone, Copy, Debug, PartialEq, Eq, Hash, Structural)]
pub enum SenderVerdict {
    /// The message is left alone.
    Ignore,
    /// The sender is a known scammer and is answered as one.
    Sanction,
    /// Nothing is held against the sender: the text decides.
    ReadOn,
}

/// The user of whom the store has to say whether it knows a scammer: the
/// sender of a message from a group, where a user other than the account
/// itself sent it. Chats with an id of zero or more are private.
pub open spec fn sender_to_look_up(chat_id: i64, sender: Option<i64>, me: i64) -> Option<i64> {
    match sender {
        Some(user_id) => if chat_id < 0 && user_id != me {
            Some(user_id)
        } else {
            None
        },
        None => None,
    }
}

/// What the rules make of the chat that a message came from and of its
/// sender: `sender` is the user who sent it, if a user did, and
/// `is_scammer` says whether the store knows that user as a scammer.
pub open spec fn verdict_on_sender(
    chat_id: i64,
    sender: Option<i64>,
    me: i64,
    is_scammer: bool,
) -> SenderVerdict {
    if chat_id >= 0 || sender == Some(me) {
        SenderVerdict::Ignore
    } else if sender is Some && is_scammer {
        SenderVerdict::Sanction
    } else {
        SenderVerdict::ReadOn
    }
}

/// Whether `needle` stands in `haystack` at position `at`.
pub open spec fn occurs_at(needle: Seq<u8>, haystack: Seq<u8>, at: int) -> bool {
    &&& 0 <= at
    &&& at + needle.len() <= haystack.len()
    &&& haystack.subrange(at, at + needle.len()) == needle
}

/// Whether `needle` stands somewhere in `haystack`.
pub open spec fn occurs(needle: Seq<u8>, haystack: Seq<u8>) -> bool {
    exists|at: int| occurs_at(needle, haystack, at)
}

/// Whether the text holds one of the keywords, both read as UTF-8.
pub open spec fn mentions_any(text: Seq<char>, keywords: Seq<Seq<char>>) -> bool {
    exists|k: int|
        0 <= k < keywords.len() && occurs(encode_utf8(#[trigger] keywords[k]), encode_utf8(text))
}

/// Whether a message's text counts as a scam, given the document that holds
/// the keywords: it does where the text, in upper case and transliterated to
/// ASCII, holds one of them. There is no answer where the document is no
/// list of strings.
pub open spec fn scam_verdict(text: Seq<char>, keywords_json: Seq<char>) -> Option<bool> {
    match string_list_in(keywords_json) {
        Some(keywords) => Some(mentions_any(normalised(text), keywords)),
        None => None,
    }
}

/// The text in the form in which keywords are looked for in it: in upper
/// case, and then transliterated to ASCII.
pub open spec fn normalised(text: Seq<char>) -> Seq<char> {
    transliterated(uppercased(text))
}

/// The texts of a list of strings.
pub open spec fn list_of(strings: Vec<String>) -> Seq<Seq<char>> {
    Seq::new(strings@.len(), |i: int| strings@[i]@)
}

/// The text that `str::to_uppercase` makes of a text.
pub uninterp spec fn uppercased(text: Seq<char>) -> Seq<char>;

/// The text that `unidecode::unidecode` makes of a text.
pub uninterp spec fn transliterated(text: Seq<char>) -> Seq<char>;

/// The list of strings that `serde_json::from_str` reads from a document, if
/// the document is such a list.
pub uninterp spec fn string_list_in(json: Seq<char>) -> Option<Seq<Seq<char>>>;

/// Puts a text in upper case with `str::to_uppercase`. The contract only
/// gives the result its name.
#[verifier::external_body]
fn to_uppercase(text: &str) -> (upper: String)
    ensures
        upper@ == uppercased(text@),
{
    text.to_uppercase()
}

/// Transliterates a text to ASCII with `unidecode::unidecode`. The contract
/// only gives the result its name.
#[verifier::external_body]
fn transliterate(text: &str) -> (ascii: String)
    ensures
        ascii@ == transliterated(text@),
{
    unidecode::unidecode(text)
}

/// Reads a list of strings from a JSON document with
/// `serde_json::from_str`, and hands out the list or the text of the
/// parser's error. The contract only gives the list its name.
#[verifier::external_body]
fn parse_string_list(json: &str) -> (parsed: Result<Vec<String>, String>)
    ensures
        parsed is Ok == string_list_in(json@) is Some,
        parsed matches Ok(list) ==> string_list_in(json@) == Some(list_of(list)),
{
    match serde_json::from_str::<Vec<String>>(json) {
        Ok(list) => Ok(list),
        Err(error) => Err(error.to_string()),
    }
}

/// Says which user to look up among the scammers before a message is
/// judged, if any.
pub fn scammer_query(chat_id: i64, sender: Option<i64>, me: i64) -> (query: Option<i64>)
    ensures
        query == sender_to_look_up(chat_id, sender, me),
{
    match sender {
        Some(user_id) => if chat_id < 0 && user_id != me {
            Some(user_id)
        } else {
            None
        },
        None => None,
    }
}

/// Decides from its chat and its sender what to do with a message.
pub fn judge_sender(chat_id: i64, sender: Option<i64>, me: i64, is_scammer: bool) -> (verdict:
    SenderVerdict)
    ensures
        verdict == verdict_on_sender(chat_id, sender, me, is_scammer),
{
    if chat_id >= 0 {
        return SenderVerdict::Ignore;
    }
    match sender {
        Some(user_id) => if user_id == me {
            SenderVerdict::Ignore
        } else if is_scammer {
            SenderVerdict::Sanction
        } else {
            SenderVerdict::ReadOn
        },
        None => SenderVerdict::ReadOn,
    }
}

fn matches_at(haystack: &[u8], needle: &[u8], at: usize) -> (found: bool)
    requires
        at + needle@.len() <= haystack@.len(),
    ensures
        found == occurs_at(needle@, haystack@, at as int),
{
    let len = haystack.len();
    let mut i: usize = 0;
    while i < needle.len()
        invariant
            i <= needle@.len(),
            len == haystack@.len(),
            at + needle@.len() <= haystack@.len(),
            forall|k: int| 0 <= k < i ==> haystack@[at + k] == needle@[k],
        decreases needle@.len() - i,
    {
        if haystack[at + i] != needle[i] {
            assert(haystack@.subrange(at as int, at + needle@.len())[i as int] != needle@[i as int]);
            return false;
        }
        i = i + 1;
    }
    assert(haystack@.subrange(at as int, at + needle@.len()) =~= needle@);
    true
}

/// Whether `needle` stands somewhere in `haystack`, byte for byte.
pub fn contains_bytes(haystack: &[u8], needle: &[u8]) -> (found: bool)
    ensures
        found == occurs(needle@, haystack@),
{
    if needle.len() > haystack.len() {
        return false;
    }
    let last: usize = haystack.len() - needle.len();
    let mut at: usize = 0;
    loop
        invariant
            at <= last,
            last == haystack@.len() - needle@.len(),
            forall|k: int| 0 <= k < at ==> !occurs_at(needle@, haystack@, k),
        decreases last - at,
    {
        if matches_at(haystack, needle, at) {
            return true;
        }
        if at == last {
            return false;
        }
        at = at + 1;
    }
}

/// Whether a text that is normalised already holds one of the keywords.
pub fn mentions_keyword(text: &str, keywords: &Vec<String>) -> (found: bool)
    ensures
        found == mentions_any(text@, list_of(*keywords)),
{
    let haystack = text.as_bytes();
    let mut k: usize = 0;
    while k < keywords.len()
        invariant
            k <= keywords.len(),
            haystack@ == encode_utf8(text@),
            forall|j: int|
                0 <= j < k ==> !occurs(
                    encode_utf8(#[trigger] list_of(*keywords)[j]),
                    encode_utf8(text@),
                ),
        decreases keywords.len() - k,
    {
        if contains_bytes(haystack, keywords[k].as_str().as_bytes()) {
            assert(occurs(encode_utf8(list_of(*keywords)[k as int]), encode_utf8(text@)));
            return true;
        }
        k = k + 1;
    }
    false
}

/// Whether a message's text counts as a scam, with the keywords read from a
/// JSON document that is a list of strings; hands out the parser's words
/// where the document is none.
pub fn is_scam_message(text: &str, keywords_json: &str) -> (scam: Result<bool, String>)
    ensures
        match scam_verdict(text@, keywords_json@) {
            Some(verdict) => scam == Ok::<bool, String>(verdict),
            None => scam is Err,
        },
{
    let upper = to_uppercase(text);
    let ascii = transliterate(upper.as_str());
    match parse_string_list(keywords_json) {
        Ok(keywords) => Ok(mentions_keyword(ascii.as_str(), &keywords)),
        Err(words) => Err(words),
    }
}

} // verus!
