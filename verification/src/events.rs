//! Typed domain events and the parser that decodes them.
//!
//! The page bridge delivers each event as a single tab-delimited text
//! payload.  A chat payload has exactly two fields (username, message), a
//! donation payload exactly three (username, amount, message).  A payload
//! whose field count does not match is dropped: malformed input is
//! unrecoverable at this boundary, so the parser returns nothing for it.

use vstd::prelude::*;
use vstd::string::StrSliceExecFns;

verus! {

/// A single chat message, as parsed from a two-field payload.
#[derive(Clone, Debug)]
pub struct ChatMessage {
    pub username: String,
    pub message: String,
}

/// The mathematical value of a chat message.
pub ghost struct ChatView {
    pub username: Seq<char>,
    pub message: Seq<char>,
}

impl View for ChatMessage {
    type V = ChatView;

    open spec fn view(&self) -> ChatView {
        ChatView { username: self.username@, message: self.message@ }
    }
}

/// A single donation, as parsed from a three-field payload.  `amount` is an
/// opaque currency-formatted string; the engine passes it through verbatim.
#[derive(Clone, Debug)]
pub struct RecentDonator {
    pub username: String,
    pub amount: String,
    pub message: String,
}

/// The mathematical value of a donation.
pub ghost struct DonationView {
    pub username: Seq<char>,
    pub amount: Seq<char>,
    pub message: Seq<char>,
}

impl View for RecentDonator {
    type V = DonationView;

    open spec fn view(&self) -> DonationView {
        DonationView { username: self.username@, amount: self.amount@, message: self.message@ }
    }
}

/// The fields obtained by splitting `s` at every occurrence of `d`.
///
/// The result always has one more element than `s` has delimiters; in
/// particular it is `[empty]` for the empty string, and delimiters at the
/// ends or next to each other yield empty fields.
pub open spec fn split_on(s: Seq<char>, d: char) -> Seq<Seq<char>>
    decreases s.len(),
{
    if s.len() == 0 {
        seq![Seq::<char>::empty()]
    } else {
        let init = split_on(s.drop_last(), d);
        if s.last() == d {
            init.push(Seq::<char>::empty())
        } else {
            init.update(init.len() - 1, init.last().push(s.last()))
        }
    }
}

/// The views of a sequence of owned strings.
pub open spec fn views_of(fields: Seq<String>) -> Seq<Seq<char>> {
    fields.map_values(|f: String| f@)
}

/// The views of a sequence of chat messages.
pub open spec fn message_views(s: Seq<ChatMessage>) -> Seq<ChatView> {
    s.map_values(|m: ChatMessage| m@)
}

/// The views of a sequence of donations.
pub open spec fn donation_views(s: Seq<RecentDonator>) -> Seq<DonationView> {
    s.map_values(|d: RecentDonator| d@)
}

pub proof fn lemma_split_on_len(s: Seq<char>, d: char)
    ensures
        split_on(s, d).len() >= 1,
    decreases s.len(),
{
    if s.len() > 0 {
        lemma_split_on_len(s.drop_last(), d);
    }
}

/// Splits `payload` at every tab character, returning the fields in order.
pub fn split_tab_fields(payload: &str) -> (fields: Vec<String>)
    ensures
        views_of(fields@) == split_on(payload@, '\t'),
{
    let n = payload.unicode_len();
    let mut fields: Vec<String> = Vec::new();
    let mut start: usize = 0;
    let mut i: usize = 0;
    proof {
        assert(payload@.take(0) =~= Seq::<char>::empty());
        assert(payload@.subrange(0, 0) =~= Seq::<char>::empty());
        assert(views_of(fields@).push(payload@.subrange(0, 0)) =~= split_on(payload@.take(0), '\t'));
    }
    while i < n
        invariant
            start <= i <= n,
            n == payload@.len(),
            views_of(fields@).push(payload@.subrange(start as int, i as int))
                == split_on(payload@.take(i as int), '\t'),
        decreases n - i,
    {
        let ghost pre = payload@.take(i as int);
        let ghost cur = payload@.subrange(start as int, i as int);
        let c = payload.get_char(i);
        proof {
            assert(payload@.take(i + 1).drop_last() =~= pre);
            assert(payload@.take(i + 1).last() == c);
        }
        if c == '\t' {
            let piece = payload.substring_char(start, i).to_owned();
            fields.push(piece);
            start = i + 1;
            proof {
                assert(views_of(fields@) =~= split_on(pre, '\t'));
                assert(payload@.subrange(start as int, i + 1) =~= Seq::<char>::empty());
                assert(views_of(fields@).push(payload@.subrange(start as int, i + 1))
                    =~= split_on(payload@.take(i + 1), '\t'));
            }
        } else {
            proof {
                let init = split_on(pre, '\t');
                lemma_split_on_len(pre, '\t');
                assert(init.last() == cur);
                assert(payload@.subrange(start as int, i + 1) =~= cur.push(c));
                assert(init.update(init.len() - 1, cur.push(c))
                    =~= views_of(fields@).push(payload@.subrange(start as int, i + 1)));
            }
        }
        i = i + 1;
    }
    proof {
        assert(payload@.take(n as int) =~= payload@);
    }
    let piece = payload.substring_char(start, n).to_owned();
    fields.push(piece);
    proof {
        assert(views_of(fields@) =~= split_on(payload@, '\t'));
    }
    fields
}

/// Decodes a chat payload: exactly two tab-separated fields, or nothing.
pub fn parse_chat_payload(payload: &str) -> (r: Option<ChatMessage>)
    ensures
        split_on(payload@, '\t').len() == 2 ==> (r matches Some(m)
            && m.username@ == split_on(payload@, '\t')[0]
            && m.message@ == split_on(payload@, '\t')[1]),
        split_on(payload@, '\t').len() != 2 ==> r is None,
{
    let mut fields = split_tab_fields(payload);
    if fields.len() == 2 {
        let message = fields.pop().unwrap();
        let username = fields.pop().unwrap();
        Some(ChatMessage { username, message })
    } else {
        None
    }
}

/// Decodes a donation payload: exactly three tab-separated fields, or nothing.
pub fn parse_donation_payload(payload: &str) -> (r: Option<RecentDonator>)
    ensures
        split_on(payload@, '\t').len() == 3 ==> (r matches Some(d)
            && d.username@ == split_on(payload@, '\t')[0]
            && d.amount@ == split_on(payload@, '\t')[1]
            && d.message@ == split_on(payload@, '\t')[2]),
        split_on(payload@, '\t').len() != 3 ==> r is None,
{
    let mut fields = split_tab_fields(payload);
    if fields.len() == 3 {
        let message = fields.pop().unwrap();
        let amount = fields.pop().unwrap();
        let username = fields.pop().unwrap();
        Some(RecentDonator { username, amount, message })
    } else {
        None
    }
}

} // verus!
