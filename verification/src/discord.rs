//! Content of the chat notifications: webhook payloads and the score-update
//! messages the bot maintains, built and decided here; the surrounding
//! application only delivers them.

use vstd::prelude::*;

use crate::slug::slug_of;
use crate::solutions::LeaderboardEntry;
use crate::text::{i32_to_string, spec_i64_string};
use crate::web::Account;

verus! {

/// A score improvement to announce.
#[derive(Clone, PartialEq, Eq, Debug)]
pub struct ScoreImproved {
    pub challenge_id: i32,
    pub author: i32,
    pub language: String,
    pub score: i32,
}

/// One webhook message.
pub struct WebHookRequest {
    pub content: Option<String>,
    pub username: Option<String>,
    pub avatar_url: Option<String>,
    pub tts: Option<bool>,
    pub embeds: Option<Vec<Embed>>,
}

/// One embed of a webhook message.
#[derive(Clone, PartialEq, Eq, Debug)]
pub struct Embed {
    pub title: Option<String>,
    pub description: Option<String>,
    pub url: Option<String>,
    pub color: Option<i32>,
}

/// Why posting a webhook failed.
#[derive(Clone, Copy, PartialEq, Eq, Structural, Debug)]
pub enum DiscordError {
    EnvVarNotValidUnicode,
    ClientBuild,
    Request,
    BadStatusCode(u16),
}

/// The bot's record of the message it maintains for one (challenge,
/// language) board.
#[derive(Clone, PartialEq, Eq, Debug)]
pub struct LastMessage {
    pub id: i32,
    pub language: String,
    pub challenge_id: i32,
    pub author_id: i32,
    pub author_name: String,
    pub score: i32,
    pub previous_author_id: Option<i32>,
    pub previous_author_name: Option<String>,
    pub previous_author_score: Option<i32>,
    pub message_id: i64,
    pub channel_id: i64,
}

// ---------------------------------------------------------------------------
// Decisions
// ---------------------------------------------------------------------------

/// Whether an accepted solution is announced: only when it now holds the top
/// of its board — there is no top entry, or the top entry is this very
/// solution.
pub fn should_announce(top: Option<&LeaderboardEntry>, author: i32, score: i32) -> (r: bool)
    ensures
        r == (match top {
            Some(k) => k.score == score && k.author_id == author,
            None => true,
        }),
{
    match top {
        Some(k) => k.score == score && k.author_id == author,
        None => true,
    }
}

/// Whether the bot edits its standing message rather than sending a new
/// one: only when the standing message already credits the same author.
pub fn should_edit_message(last: Option<&LastMessage>, author: i32) -> (r: bool)
    ensures
        r == (last matches Some(k) && k.author_id == author),
{
    match last {
        Some(k) => k.author_id == author,
        None => false,
    }
}

/// The name and score credited as "previous" in an updated score message:
/// the standing message's own previous entry when the author improves their
/// own score and that entry is complete, else the standing message's entry.
pub fn previous_credit(last: &LastMessage, new_author: i32) -> (r: (String, i32))
    ensures
        ({
            if last.author_id == new_author && last.previous_author_name is Some
                && last.previous_author_score is Some {
                r.0@ == last.previous_author_name->0@ && r.1 == last.previous_author_score->0
            } else {
                r.0@ == last.author_name@ && r.1 == last.score
            }
        }),
{
    if last.author_id == new_author {
        match (&last.previous_author_name, &last.previous_author_score) {
            (Some(name), Some(score)) => (clone_string(name), *score),
            _ => (clone_string(&last.author_name), last.score),
        }
    } else {
        (clone_string(&last.author_name), last.score)
    }
}

fn clone_string(s: &String) -> (r: String)
    ensures
        r@ == s@,
{
    s.clone()
}

// ---------------------------------------------------------------------------
// Message content
// ---------------------------------------------------------------------------

/// The embed of the bot's score message: a title naming the challenge, the
/// solve-page URL, and one field per credited score.
pub struct BotEmbed {
    pub title: String,
    pub url: String,
    pub fields: Vec<(String, String)>,
}

/// The URL of the solve page a score message points at.
pub open spec fn spec_solve_url(
    public_url: Seq<char>,
    challenge_id: int,
    challenge_name: Seq<char>,
    language: Seq<char>,
) -> Seq<char> {
    public_url + "/challenge/"@ + spec_i64_string(challenge_id) + "/"@ + slug_of(challenge_name)
        + "/solve/"@ + language
}

/// Builds the bot's score message for one improvement: the previous credit,
/// when one is shown, comes first.
pub fn format_message(
    previous_message: &Option<LastMessage>,
    new_message: &ScoreImproved,
    challenge_name: &String,
    author_name: &String,
    public_url: &String,
) -> (r: BotEmbed)
    ensures
        r.title@ == "Improved score for "@ + challenge_name@,
        r.url@ == spec_solve_url(
            public_url@,
            new_message.challenge_id as int,
            challenge_name@,
            new_message.language@,
        ),
        ({
            match previous_message {
                Some(last) => r.fields@.len() == 2 && r.fields@[1].0@ == author_name@
                    && r.fields@[1].1@ == spec_i64_string(new_message.score as int) && ({
                    if last.author_id == new_message.author && last.previous_author_name is Some
                        && last.previous_author_score is Some {
                        r.fields@[0].0@ == last.previous_author_name->0@ && r.fields@[0].1@
                            == spec_i64_string(last.previous_author_score->0 as int)
                    } else {
                        r.fields@[0].0@ == last.author_name@ && r.fields@[0].1@
                            == spec_i64_string(last.score as int)
                    }
                }),
                None => r.fields@.len() == 1 && r.fields@[0].0@ == author_name@
                    && r.fields@[0].1@ == spec_i64_string(new_message.score as int),
            }
        }),
{
    let mut title = String::new();
    title.append("Improved score for ");
    title.append(challenge_name.as_str());

    let mut url = String::new();
    url.append(public_url.as_str());
    url.append("/challenge/");
    let id = i32_to_string(new_message.challenge_id);
    url.append(id.as_str());
    url.append("/");
    let s = crate::slug::Slug(challenge_name.as_str()).render();
    url.append(s.as_str());
    url.append("/solve/");
    url.append(new_message.language.as_str());
    proof {
        assert(url@ =~= spec_solve_url(
            public_url@,
            new_message.challenge_id as int,
            challenge_name@,
            new_message.language@,
        ));
    }

    let mut fields: Vec<(String, String)> = Vec::new();
    match previous_message {
        Some(last) => {
            let (prev_name, prev_score) = previous_credit(last, new_message.author);
            fields.push((prev_name, i32_to_string(prev_score)));
        },
        None => {},
    }
    fields.push((clone_string(author_name), i32_to_string(new_message.score)));
    BotEmbed { title, url, fields }
}

/// The embed announcing a brand-new challenge: its name in the title, the
/// head of its description, its edit-page URL, and a fixed colour.
pub fn new_challenge_embed(
    challenge_name: &String,
    description: &String,
    row: i32,
    public_url: &String,
) -> (r: Embed)
    ensures
        r.title matches Some(t) && t@ == "New Challenge: "@ + challenge_name@,
        r.description matches Some(d) && d@ == (if description@.len() <= 100 {
            description@
        } else {
            description@.take(100)
        }),
        r.url matches Some(u) && u@ == public_url@ + "/challenge/"@ + spec_i64_string(row as int)
            + "/"@ + slug_of(challenge_name@) + "/solve"@,
        r.color == Some(255i32),
{
    let mut title = String::new();
    title.append("New Challenge: ");
    title.append(challenge_name.as_str());

    let n = description.as_str().unicode_len();
    let head = if n <= 100 {
        clone_string(description)
    } else {
        description.as_str().substring_char(0, 100).to_owned()
    };
    proof {
        if n <= 100 {
            assert(head@ == description@);
        } else {
            assert(description@.subrange(0, 100) =~= description@.take(100));
        }
    }

    let mut url = String::new();
    url.append(public_url.as_str());
    url.append("/challenge/");
    let id = i32_to_string(row);
    url.append(id.as_str());
    url.append("/");
    let s = crate::slug::Slug(challenge_name.as_str()).render();
    url.append(s.as_str());
    url.append("/solve");

    Embed { title: Some(title), description: Some(head), url: Some(url), color: Some(255) }
}

/// The embed announcing a first-time solver: their name in the title and
/// their user-page URL.
pub fn new_golfer_embed(account: &Account, public_url: &String) -> (r: Embed)
    ensures
        r.title matches Some(t) && t@ == "New Golfer: "@ + account.username@,
        r.description is None,
        r.url matches Some(u) && u@ == public_url@ + "/user/"@ + spec_i64_string(account.id as int),
        r.color == Some(65280i32),
{
    let mut title = String::new();
    title.append("New Golfer: ");
    title.append(account.username.as_str());

    let mut url = String::new();
    url.append(public_url.as_str());
    url.append("/user/");
    let id = i32_to_string(account.id);
    url.append(id.as_str());

    Embed { title: Some(title), description: None, url: Some(url), color: Some(65280) }
}

/// Wraps one embed as the webhook message the announcement poster sends: no
/// text content, the acting user's name and avatar, one embed.
pub fn webhook_with_embed(username: &String, avatar_url: &String, embed: Embed) -> (r:
    WebHookRequest)
    ensures
        r.content is None,
        r.username matches Some(u) && u@ == username@,
        r.avatar_url matches Some(a) && a@ == avatar_url@,
        r.tts is None,
        r.embeds matches Some(es) && es@.len() == 1 && es@[0] == embed,
{
    let mut embeds: Vec<Embed> = Vec::new();
    embeds.push(embed);
    WebHookRequest {
        content: None,
        username: Some(clone_string(username)),
        avatar_url: Some(clone_string(avatar_url)),
        tts: None,
        embeds: Some(embeds),
    }
}

} // verus!
