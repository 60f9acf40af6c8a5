//! Reading a work's comments from the creator center: the comment records,
//! the list and reply answers, the account's cookie and user agent for the
//! requests, paging through all comments, and the CSV export.

use vstd::prelude::*;
use crate::chars::{chars_of, string_of, push_str, push_chars};
use crate::json::{JsonValue, JsonTree, spec_parse_json};
use crate::model::{UserAccount, PlatformError, credentials_of, opt_str};
use crate::douyin_api::BdTicketConfig;
use crate::numfmt::{dec_int, push_dec_i64, spec_parse_i64, parse_i64};
use crate::signature_v4::keys_distinct;

verus! {

/// One comment (or reply) on a work.
pub struct Comment {
    pub id: String,
    pub text: String,
    pub create_time: String,
    pub digg_count: i64,
    pub reply_count: i64,
    pub user_id: String,
    pub user_nickname: String,
    pub user_avatar: String,
    /// Whether the comment mentions someone (a mention record of kind 2).
    pub is_author: bool,
    pub parent_id: Option<String>,
}

/// One reply to a comment.
pub struct CommentReply {
    pub id: String,
    pub text: String,
    pub create_time: String,
    pub digg_count: i64,
    pub user_id: String,
    pub user_nickname: String,
    pub user_avatar: String,
    pub is_author: bool,
}

/// One page of comments.
pub struct CommentListResponse {
    pub comments: Vec<Comment>,
    pub total_count: i64,
    pub has_more: bool,
    pub cursor: Option<String>,
}

/// `t[k]`: the member, or null for a missing member or a non-object.
pub open spec fn member(t: JsonTree, k: Seq<char>) -> JsonTree {
    match t.get(k) {
        Some(v) => v,
        None => JsonTree::Null,
    }
}

/// The text of a string value, or the empty text.
pub open spec fn text_or_empty(t: JsonTree) -> Seq<char> {
    match t.as_str() {
        Some(s) => s,
        None => Seq::empty(),
    }
}

/// The integer value, or zero.
pub open spec fn int_or_zero(t: JsonTree) -> i64 {
    match t.as_i64() {
        Some(i) => i,
        None => 0,
    }
}

/// Whether a list of text records holds a mention (kind 2).
pub open spec fn has_mention(t: JsonTree) -> bool {
    match t.as_array() {
        Some(a) => exists|i: int| 0 <= i < a.len() && member(#[trigger] a[i], "type"@).as_i64() == Some(2i64),
        None => false,
    }
}

/// The avatar of a comment's user: `avatar_thumb` when a string, else
/// `avatar_url`, else empty.
pub open spec fn avatar_of(user: JsonTree) -> Seq<char> {
    match member(user, "avatar_thumb"@).as_str() {
        Some(s) => s,
        None => text_or_empty(member(user, "avatar_url"@)),
    }
}

/// `r` is the comment that the record `c` describes.
pub open spec fn comment_of(c: JsonTree, r: Comment) -> bool {
    let user = member(c, "user"@);
    &&& r.id@ == text_or_empty(member(c, "cid"@))
    &&& r.text@ == text_or_empty(member(c, "text"@))
    &&& r.create_time@ == text_or_empty(member(c, "create_time"@))
    &&& r.digg_count == int_or_zero(member(c, "digg_count"@))
    &&& r.reply_count == int_or_zero(member(c, "reply_count"@))
    &&& r.user_id@ == text_or_empty(member(user, "uid"@))
    &&& r.user_nickname@ == text_or_empty(member(user, "nickname"@))
    &&& r.user_avatar@ == avatar_of(user)
    &&& r.is_author == has_mention(member(c, "text_extra"@))
    &&& opt_str(r.parent_id) == member(c, "parent_cid"@).as_str()
}

fn member_str(v: &JsonValue, k: &str) -> (r: Option<String>)
    ensures
        opt_str(r) == member(v@, k@).as_str(),
{
    match v.get(k) {
        Some(x) => match x.as_str() {
            Some(s) => Some(s.clone()),
            None => None,
        },
        None => None,
    }
}

fn member_text(v: &JsonValue, k: &str) -> (r: String)
    ensures
        r@ == text_or_empty(member(v@, k@)),
{
    match member_str(v, k) {
        Some(s) => s,
        None => String::new(),
    }
}

fn member_int(v: &JsonValue, k: &str) -> (r: i64)
    ensures
        r == int_or_zero(member(v@, k@)),
{
    match v.get(k) {
        Some(x) => match x.as_i64() {
            Some(i) => i,
            None => 0,
        },
        None => 0,
    }
}

fn mentions(v: &JsonValue) -> (r: bool)
    ensures
        r == has_mention(member(v@, "text_extra"@)),
{
    match v.get("text_extra") {
        Some(x) => match x.as_array() {
            Some(a) => {
                proof { crate::json::lemma_trees_index(a@); }
                let mut i: usize = 0;
                while i < a.len()
                    invariant
                        i <= a.len(),
                        x@.as_array() == Some(crate::json::trees(a@)),
                        member(v@, "text_extra"@) == x@,
                        crate::json::trees(a@).len() == a@.len(),
                        forall|j: int| 0 <= j < a@.len() ==> #[trigger] crate::json::trees(a@)[j] == a@[j]@,
                        forall|j: int| 0 <= j < i ==> member(#[trigger] crate::json::trees(a@)[j], "type"@).as_i64() != Some(2i64),
                    decreases a.len() - i,
                {
                    let t = match a[i].get("type") {
                        Some(y) => y.as_i64(),
                        None => None,
                    };
                    if t == Some(2i64) {
                        assert(member(crate::json::trees(a@)[i as int], "type"@).as_i64() == Some(2i64));
                        assert(member(v@, "text_extra"@) == x@);
                        assert(has_mention(x@));
                        return true;
                    }
                    i = i + 1;
                }
                false
            },
            None => false,
        },
        None => false,
    }
}

/// The text at `key` of the object `t`: the string stored there, or the
/// empty text when `t` is not an object or the member is missing or not a
/// string.
pub open spec fn text_at(t: JsonTree, key: Seq<char>) -> Seq<char> {
    match t {
        JsonTree::Object(m) => match crate::json::members_lookup(m, key) {
            Some(JsonTree::Str(s)) => s,
            _ => Seq::empty(),
        },
        _ => Seq::empty(),
    }
}

/// A parsed comment reads its fields from the record's own keys: its id is
/// the text at `cid`, its text at `text`, and its commenter's id and
/// nickname are the texts at `uid` and `nickname` of the record's `user`
/// object.
pub proof fn law_comment_fields(c: JsonTree, r: Comment)
    requires
        comment_of(c, r),
    ensures
        r.id@ == text_at(c, "cid"@),
        r.text@ == text_at(c, "text"@),
        r.user_id@ == (match c {
            JsonTree::Object(m) => match crate::json::members_lookup(m, "user"@) {
                Some(u) => text_at(u, "uid"@),
                None => Seq::empty(),
            },
            _ => Seq::empty(),
        }),
        r.user_nickname@ == (match c {
            JsonTree::Object(m) => match crate::json::members_lookup(m, "user"@) {
                Some(u) => text_at(u, "nickname"@),
                None => Seq::empty(),
            },
            _ => Seq::empty(),
        }),
{
}

/// The comment that a record describes.
pub fn parse_comment(c: &JsonValue) -> (r: Comment)
    ensures
        comment_of(c@, r),
{
    let user = match c.get("user") {
        Some(u) => crate::json::copy_json(u),
        None => JsonValue::Null,
    };
    assert(user@ == member(c@, "user"@));
    let avatar = match member_str(&user, "avatar_thumb") {
        Some(a) => a,
        None => member_text(&user, "avatar_url"),
    };
    Comment {
        id: member_text(c, "cid"),
        text: member_text(c, "text"),
        create_time: member_text(c, "create_time"),
        digg_count: member_int(c, "digg_count"),
        reply_count: member_int(c, "reply_count"),
        user_id: member_text(&user, "uid"),
        user_nickname: member_text(&user, "nickname"),
        user_avatar: avatar,
        is_author: mentions(c),
        parent_id: member_str(c, "parent_cid"),
    }
}

/// Whether an answer reports success: its `status_code` is the integer 0.
pub open spec fn answer_ok(data: JsonTree) -> bool {
    member(data, "status_code"@).as_i64() == Some(0i64)
}

/// The comments described by the records of the array member `key`.
pub open spec fn comments_of(data: JsonTree, key: Seq<char>, r: Seq<Comment>) -> bool {
    let recs = match member(data, key).as_array() { Some(a) => a, None => Seq::empty() };
    &&& r.len() == recs.len()
    &&& forall|i: int| 0 <= i < r.len() ==> comment_of(recs[i], #[trigger] r[i])
}

fn parse_comments(data: &JsonValue, key: &str) -> (r: Vec<Comment>)
    ensures
        comments_of(data@, key@, r@),
{
    let mut out: Vec<Comment> = Vec::new();
    match data.get(key) {
        Some(x) => match x.as_array() {
            Some(a) => {
                proof { crate::json::lemma_trees_index(a@); }
                let mut i: usize = 0;
                while i < a.len()
                    invariant
                        i <= a.len(),
                        x@.as_array() == Some(crate::json::trees(a@)),
                        crate::json::trees(a@).len() == a@.len(),
                        forall|j: int| 0 <= j < a@.len() ==> #[trigger] crate::json::trees(a@)[j] == a@[j]@,
                        out@.len() == i,
                        forall|j: int| 0 <= j < i ==> comment_of(crate::json::trees(a@)[j], #[trigger] out@[j]),
                    decreases a.len() - i,
                {
                    let cm = parse_comment(&a[i]);
                    out.push(cm);
                    i = i + 1;
                }
            },
            None => {},
        },
        None => {},
    }
    out
}

/// The error of a refused answer: its `status_msg`, else `fallback`.
pub open spec fn refusal_text(data: JsonTree, fallback: Seq<char>) -> Seq<char> {
    match member(data, "status_msg"@).as_str() {
        Some(m) => m,
        None => fallback,
    }
}

/// Reads a page of comments from the comment list answer: a refused answer
/// is a network error with its message (`获取评论失败` when none); otherwise
/// the `comments`, the total, whether more follow, and the next cursor.
pub fn parse_comment_list(data: &JsonValue) -> (r: Result<CommentListResponse, PlatformError>)
    ensures
        !answer_ok(data@) ==> (r matches Err(PlatformError::NetworkError(m)) && m@ == refusal_text(data@, "获取评论失败"@)),
        answer_ok(data@) ==> (r matches Ok(p) && comments_of(data@, "comments"@, p.comments@)
            && p.total_count == int_or_zero(member(data@, "total_count"@))
            && p.has_more == (member(data@, "has_more"@) == JsonTree::Bool(true))
            && opt_str(p.cursor) == member(data@, "cursor"@).as_str()),
{
    let code = match data.get("status_code") { Some(c) => c.as_i64(), None => None };
    if code != Some(0i64) {
        let m = match member_str(data, "status_msg") { Some(m) => m, None => String::from_str("获取评论失败") };
        return Err(PlatformError::NetworkError(m));
    }
    let comments = parse_comments(data, "comments");
    let has_more = match data.get("has_more") { Some(JsonValue::Bool(b)) => *b, _ => false };
    Ok(CommentListResponse {
        comments,
        total_count: member_int(data, "total_count"),
        has_more,
        cursor: member_str(data, "cursor"),
    })
}

/// Reads a page of replies from the reply list answer: a refused answer is
/// a network error with its message (`获取回复失败` when none); otherwise the
/// `reply_list`, the total and whether more follow, with no cursor.
pub fn parse_reply_list(data: &JsonValue) -> (r: Result<CommentListResponse, PlatformError>)
    ensures
        !answer_ok(data@) ==> (r matches Err(PlatformError::NetworkError(m)) && m@ == refusal_text(data@, "获取回复失败"@)),
        answer_ok(data@) ==> (r matches Ok(p) && comments_of(data@, "reply_list"@, p.comments@)
            && p.total_count == int_or_zero(member(data@, "total_count"@))
            && p.has_more == (member(data@, "has_more"@) == JsonTree::Bool(true))
            && p.cursor is None),
{
    let code = match data.get("status_code") { Some(c) => c.as_i64(), None => None };
    if code != Some(0i64) {
        let m = match member_str(data, "status_msg") { Some(m) => m, None => String::from_str("获取回复失败") };
        return Err(PlatformError::NetworkError(m));
    }
    let comments = parse_comments(data, "reply_list");
    let has_more = match data.get("has_more") { Some(JsonValue::Bool(b)) => *b, _ => false };
    Ok(CommentListResponse {
        comments,
        total_count: member_int(data, "total_count"),
        has_more,
        cursor: None,
    })
}

/// The total in the comment count answer, or zero.
pub fn comment_total(data: &JsonValue) -> (r: i64)
    ensures
        r == int_or_zero(member(data@, "total_count"@)),
{
    member_int(data, "total_count")
}

// ---------------------------------------------------------------------------
// The client's requests
// ---------------------------------------------------------------------------

/// Reads the comments of works with one account's credentials.
pub struct DouyinCommentClient {
    pub account: Option<UserAccount>,
    pub bd_ticket_config: BdTicketConfig,
}

/// The account's credential member `k` (`cookie`, `user_agent`) when its
/// parameters are JSON, else nothing.
pub open spec fn account_credential(account: Option<UserAccount>, k: Seq<char>) -> Option<Seq<char>> {
    match account {
        Some(a) => match spec_parse_json(a.params@) {
            Ok(t) => Some(t.str_or_empty(k)),
            Err(_) => None,
        },
        None => None,
    }
}

/// The user agent used when an account's is unknown.
pub open spec fn fallback_user_agent() -> Seq<char> {
    "Mozilla/5.0 (Windows NT 10.0; Win64; x64) AppleWebKit/537.36 (KHTML, like Gecko) Chrome/120.0.0.0 Safari/537.36"@
}

/// The query of a comment page request.
pub open spec fn comments_query(aweme_id: Seq<char>, cursor: i64, count: i64) -> Seq<(Seq<char>, Seq<char>)> {
    seq![("aweme_id"@, aweme_id), ("page_size"@, dec_int(count as int)), ("cursor"@, dec_int(cursor as int)),
        ("type"@, "1"@)]
}

/// The query of a reply page request.
pub open spec fn replies_query(aweme_id: Seq<char>, comment_id: Seq<char>, cursor: i64, count: i64)
    -> Seq<(Seq<char>, Seq<char>)> {
    seq![("aweme_id"@, aweme_id), ("comment_id"@, comment_id), ("page_size"@, dec_int(count as int)),
        ("cursor"@, dec_int(cursor as int))]
}

fn dec_string(n: i64) -> (r: String)
    ensures
        r@ == dec_int(n as int),
{
    let mut out: Vec<char> = Vec::new();
    push_dec_i64(&mut out, n);
    string_of(out.as_slice())
}

fn pair(k: &str, v: String) -> (r: (String, String))
    ensures
        r.0@ == k@,
        r.1 == v,
{
    (String::from_str(k), v)
}

impl DouyinCommentClient {
    /// A client for an account (or none).
    pub fn new(account: Option<UserAccount>, bd_ticket_config: BdTicketConfig) -> (r: Self)
        ensures
            r.account == account,
            r.bd_ticket_config == bd_ticket_config,
    {
        DouyinCommentClient { account, bd_ticket_config }
    }

    /// The cookie sent with the requests: the account's, else empty.
    pub fn get_cookie(&self) -> (r: String)
        ensures
            r@ == match account_credential(self.account, "cookie"@) { Some(c) => c, None => Seq::empty() },
    {
        match &self.account {
            Some(a) => match a.get_credentials() {
                Ok(c) => c.cookie,
                Err(_) => String::new(),
            },
            None => String::new(),
        }
    }

    /// The user agent sent with the requests: the account's, else a fixed
    /// desktop browser's.
    pub fn get_user_agent(&self) -> (r: String)
        ensures
            r@ == match account_credential(self.account, "user_agent"@) { Some(c) => c, None => fallback_user_agent() },
    {
        match &self.account {
            Some(a) => match a.get_credentials() {
                Ok(c) => c.user_agent,
                Err(_) => String::from_str("Mozilla/5.0 (Windows NT 10.0; Win64; x64) AppleWebKit/537.36 (KHTML, like Gecko) Chrome/120.0.0.0 Safari/537.36"),
            },
            None => String::from_str("Mozilla/5.0 (Windows NT 10.0; Win64; x64) AppleWebKit/537.36 (KHTML, like Gecko) Chrome/120.0.0.0 Safari/537.36"),
        }
    }

    /// The query of a page of comments.
    pub fn comments_query(&self, aweme_id: &str, cursor: i64, count: i64) -> (r: Vec<(String, String)>)
        ensures
            r@.map_values(|p: (String, String)| (p.0@, p.1@)) == comments_query(aweme_id@, cursor, count),
            keys_distinct(r@.map_values(|p: (String, String)| (p.0@, p.1@))),
    {
        let mut v: Vec<(String, String)> = Vec::new();
        v.push(pair("aweme_id", String::from_str(aweme_id)));
        v.push(pair("page_size", dec_string(count)));
        v.push(pair("cursor", dec_string(cursor)));
        v.push(pair("type", String::from_str("1")));
        assert(v@.map_values(|p: (String, String)| (p.0@, p.1@)) =~= comments_query(aweme_id@, cursor, count));
        proof { lemma_comments_query_keys(aweme_id@, cursor, count); }
        v
    }

    /// The query of a page of replies to a comment.
    pub fn replies_query(&self, aweme_id: &str, comment_id: &str, cursor: i64, count: i64) -> (r: Vec<(String, String)>)
        ensures
            r@.map_values(|p: (String, String)| (p.0@, p.1@)) == replies_query(aweme_id@, comment_id@, cursor, count),
            keys_distinct(r@.map_values(|p: (String, String)| (p.0@, p.1@))),
    {
        let mut v: Vec<(String, String)> = Vec::new();
        v.push(pair("aweme_id", String::from_str(aweme_id)));
        v.push(pair("comment_id", String::from_str(comment_id)));
        v.push(pair("page_size", dec_string(count)));
        v.push(pair("cursor", dec_string(cursor)));
        assert(v@.map_values(|p: (String, String)| (p.0@, p.1@)) =~= replies_query(aweme_id@, comment_id@, cursor, count));
        proof { lemma_replies_query_keys(aweme_id@, comment_id@, cursor, count); }
        v
    }
}

// ---------------------------------------------------------------------------
// Paging through all comments
// ---------------------------------------------------------------------------

/// The number of comments asked for per page.
pub open spec fn page_size() -> i64 {
    100
}

/// Collects the comments of a work page by page, up to a maximum.
pub struct CommentPager {
    /// The cursor of the next page.
    pub cursor: i64,
    /// The comments collected so far.
    pub comments: Vec<Comment>,
    pub max_count: Option<i64>,
    /// Whether paging has ended.
    pub done: bool,
}

/// Whether the collected comments reach the maximum (compared as the
/// original compares, with the maximum taken as a `usize`).
pub open spec fn reaches_max(len: nat, max_count: Option<i64>) -> bool {
    match max_count {
        Some(m) => len >= (m as usize),
        None => false,
    }
}

impl CommentPager {
    /// Paging from the first page.
    pub fn new(max_count: Option<i64>) -> (r: Self)
        ensures
            r.cursor == 0 && r.comments@.len() == 0 && r.max_count == max_count && !r.done,
    {
        CommentPager { cursor: 0, comments: Vec::new(), max_count, done: false }
    }

    /// The number of comments per page.
    pub fn page_size(&self) -> (r: i64)
        ensures
            r == page_size(),
    {
        100
    }

    /// Takes in one page. The page's comments are added; reaching the
    /// maximum keeps only that many and ends paging; a last page ends
    /// paging; otherwise the next cursor is the page's (when it reads as a
    /// number), else the current one advanced by a page (paging ends when
    /// that does not fit in an `i64`).
    pub fn feed(&mut self, page: CommentListResponse)
        requires
            !old(self).done,
        ensures
            final(self).max_count == old(self).max_count,
            ({
                let all = old(self).comments@ + page.comments@;
                if reaches_max(all.len(), old(self).max_count) {
                    final(self).done && final(self).comments@ == all.subrange(0,
                        (old(self).max_count->Some_0 as usize) as int)
                } else if !page.has_more {
                    final(self).done && final(self).comments@ == all
                } else {
                    final(self).comments@ == all && match page.cursor {
                        Some(c) if spec_parse_i64(c@) is Some =>
                            !final(self).done && final(self).cursor == spec_parse_i64(c@)->Some_0,
                        _ => if old(self).cursor + page_size() <= i64::MAX {
                            !final(self).done && final(self).cursor == old(self).cursor + page_size()
                        } else {
                            final(self).done
                        },
                    }
                }
            }),
    {
        let ghost all = old(self).comments@ + page.comments@;
        let mut incoming = page.comments;
        self.comments.append(&mut incoming);
        assert(self.comments@ == all);
        match self.max_count {
            Some(m) => {
                let lim = m as usize;
                if self.comments.len() >= lim {
                    self.comments.truncate(lim);
                    self.done = true;
                    return;
                }
            },
            None => {},
        }
        if !page.has_more {
            self.done = true;
            return;
        }
        let next = match &page.cursor {
            Some(c) => parse_i64(c.as_str()),
            None => None,
        };
        match next {
            Some(n) => {
                self.cursor = n;
            },
            None => {
                if self.cursor <= i64::MAX - 100 {
                    self.cursor = self.cursor + 100;
                } else {
                    self.done = true;
                }
            },
        }
    }
}

// ---------------------------------------------------------------------------
// CSV export
// ---------------------------------------------------------------------------

/// The header line of the CSV export.
pub open spec fn csv_header() -> Seq<char> {
    "ID,内容,时间,点赞数,回复数,用户ID,用户昵称,是否作者\n"@
}

/// A text with each double quote doubled.
pub open spec fn quote_doubled(s: Seq<char>) -> Seq<char>
    decreases s.len(),
{
    if s.len() == 0 {
        Seq::empty()
    } else {
        quote_doubled(s.drop_last()) + if s.last() == '"' { seq!['"', '"'] } else { seq![s.last()] }
    }
}

/// `true` or `false`.
pub open spec fn bool_text(b: bool) -> Seq<char> {
    if b { "true"@ } else { "false"@ }
}

/// The CSV line of a comment: the text quoted, the other fields as they are.
pub open spec fn csv_line(c: Comment) -> Seq<char> {
    c.id@ + ","@ + "\""@ + quote_doubled(c.text@) + "\""@ + ","@ + c.create_time@ + ","@
        + dec_int(c.digg_count as int) + ","@ + dec_int(c.reply_count as int) + ","@ + c.user_id@ + ","@
        + c.user_nickname@ + ","@ + bool_text(c.is_author) + "\n"@
}

/// The CSV lines of comments.
pub open spec fn csv_lines(cs: Seq<Comment>) -> Seq<char>
    decreases cs.len(),
{
    if cs.len() == 0 { Seq::empty() } else { csv_lines(cs.drop_last()) + csv_line(cs.last()) }
}

fn push_quote_doubled(out: &mut Vec<char>, s: &str)
    ensures
        final(out)@ == old(out)@ + quote_doubled(s@),
{
    let v = chars_of(s);
    let mut i: usize = 0;
    while i < v.len()
        invariant
            i <= v.len(),
            out@ == old(out)@ + quote_doubled(v@.subrange(0, i as int)),
        decreases v.len() - i,
    {
        proof {
            let q = v@.subrange(0, i + 1);
            assert(q.drop_last() == v@.subrange(0, i as int));
            assert(q.last() == v@[i as int]);
        }
        if v[i] == '"' {
            out.push('"');
            out.push('"');
        } else {
            out.push(v[i]);
        }
        i = i + 1;
    }
    assert(v@.subrange(0, v.len() as int) == v@);
}

fn push_csv_line(out: &mut Vec<char>, c: &Comment)
    ensures
        final(out)@ == old(out)@ + csv_line(*c),
{
    push_str(out, c.id.as_str());
    push_str(out, ",");
    push_str(out, "\"");
    push_quote_doubled(out, c.text.as_str());
    push_str(out, "\"");
    push_str(out, ",");
    push_str(out, c.create_time.as_str());
    push_str(out, ",");
    push_dec_i64(out, c.digg_count);
    push_str(out, ",");
    push_dec_i64(out, c.reply_count);
    push_str(out, ",");
    push_str(out, c.user_id.as_str());
    push_str(out, ",");
    push_str(out, c.user_nickname.as_str());
    push_str(out, ",");
    if c.is_author { push_str(out, "true"); } else { push_str(out, "false"); }
    push_str(out, "\n");
    assert(out@ =~= old(out)@ + csv_line(*c));
}

impl DouyinCommentClient {
    /// The comments as CSV: a header line, then one line per comment.
    pub fn export_to_csv(&self, comments: &[Comment]) -> (r: String)
        ensures
            r@ == csv_header() + csv_lines(comments@),
    {
        let mut out: Vec<char> = Vec::new();
        push_str(&mut out, "ID,内容,时间,点赞数,回复数,用户ID,用户昵称,是否作者\n");
        let mut i: usize = 0;
        while i < comments.len()
            invariant
                i <= comments.len(),
                out@ == csv_header() + csv_lines(comments@.subrange(0, i as int)),
            decreases comments.len() - i,
        {
            proof {
                let q = comments@.subrange(0, i + 1);
                assert(q.drop_last() == comments@.subrange(0, i as int));
                assert(q.last() == comments@[i as int]);
            }
            push_csv_line(&mut out, &comments[i]);
            i = i + 1;
        }
        assert(comments@.subrange(0, comments.len() as int) == comments@);
        string_of(out.as_slice())
    }
}

proof fn lemma_comments_query_keys(aweme_id: Seq<char>, cursor: i64, count: i64)
    ensures
        keys_distinct(comments_query(aweme_id, cursor, count)),
{
    let l = comments_query(aweme_id, cursor, count);
    reveal_strlit("aweme_id"); reveal_strlit("page_size"); reveal_strlit("cursor"); reveal_strlit("type");
    assert(l[0].0.len() != l[1].0.len());
    assert(l[0].0.len() != l[2].0.len());
    assert(l[0].0.len() != l[3].0.len());
    assert(l[1].0.len() != l[2].0.len());
    assert(l[1].0.len() != l[3].0.len());
    assert(l[2].0.len() != l[3].0.len());
    assert forall|i: int, j: int| 0 <= i < j < l.len() implies #[trigger] l[i].0 != #[trigger] l[j].0 by {
        if i == 0 && j == 1 {
        } else if i == 0 && j == 2 {
        } else if i == 0 && j == 3 {
        } else if i == 1 && j == 2 {
        } else if i == 1 && j == 3 {
        } else if i == 2 && j == 3 {
        }
    }
}

proof fn lemma_replies_query_keys(aweme_id: Seq<char>, comment_id: Seq<char>, cursor: i64, count: i64)
    ensures
        keys_distinct(replies_query(aweme_id, comment_id, cursor, count)),
{
    let l = replies_query(aweme_id, comment_id, cursor, count);
    reveal_strlit("aweme_id"); reveal_strlit("comment_id"); reveal_strlit("page_size"); reveal_strlit("cursor");
    assert(l[0].0.len() != l[1].0.len());
    assert(l[0].0.len() != l[2].0.len());
    assert(l[0].0.len() != l[3].0.len());
    assert(l[1].0.len() != l[2].0.len());
    assert(l[1].0.len() != l[3].0.len());
    assert(l[2].0.len() != l[3].0.len());
    assert forall|i: int, j: int| 0 <= i < j < l.len() implies #[trigger] l[i].0 != #[trigger] l[j].0 by {
        if i == 0 && j == 1 {
        } else if i == 0 && j == 2 {
        } else if i == 0 && j == 3 {
        } else if i == 1 && j == 2 {
        } else if i == 1 && j == 3 {
        } else if i == 2 && j == 3 {
        }
    }
}

} // verus!
