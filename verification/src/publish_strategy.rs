//! Publishing a video on Douyin: checking the request, reading the upload
//! credentials, composing the caption with its hashtags and their
//! positions, and assembling the publication data. The network steps are
//! made by the caller between these decisions.

use vstd::prelude::*;
use crate::chars::{chars_of, string_of, push_str, push_chars};
use crate::json::{JsonValue, JsonTree, JsonNumber, NumTree, json_text, to_json_string, parse_json,
    spec_parse_json, member_trees, lemma_member_trees_index, trees, empty_object, obj_set, jstr, jint,
    int_tree, members_insert, members_insert_all, object_of, copy_json};
use crate::model::{PlatformError, PublishResult, LocalDataItem, strs, opt_str};
use crate::account_params::{AccountParams, params_of_text};
use crate::douyin_client::DouyinClient;
use crate::text::{display_width, untagged, trimmed, trim_str, strip_html_tags, get_string_length};
use crate::signature_v4::{pairs_view, pairs_lookup, get_pair};
use vstd::utf8::encode_utf8;

verus! {

/// The platform kind number of Douyin.
pub const PLATFORM_TYPE_DOUYIN: i64 = 1;

/// A request to publish a video.
pub struct PublishRequest {
    pub account_id: String,
    pub video_path: String,
    pub cover_path: Option<String>,
    pub title: String,
    pub description: Option<String>,
    pub hashtag_names: Vec<String>,
    /// The publication record this request belongs to.
    pub record_id: Option<String>,
    pub third_id: Option<String>,
    /// The account's stored parameters (JSON text).
    pub params: String,
    pub download_allowed: Option<i32>,
    pub visibility_type: Option<i32>,
    /// Seconds until a scheduled publication.
    pub timeout: Option<i64>,
    /// The scheduled time (Unix seconds).
    pub send_time: Option<i64>,
    pub music_info: Option<Vec<(String, String)>>,
    pub poi_id: Option<String>,
    pub poi_name: Option<String>,
    pub anchor: Option<Vec<(String, JsonValue)>>,
    pub extra_info: Option<Vec<(String, JsonValue)>>,
}

/// The Douyin publishing strategy.
pub struct DouyinPublishStrategy;

impl DouyinPublishStrategy {
    /// The strategy.
    pub fn new() -> (r: Self) {
        DouyinPublishStrategy
    }

    /// The platform kind number it publishes to.
    pub fn get_platform_type(&self) -> (r: i64)
        ensures
            r == PLATFORM_TYPE_DOUYIN,
    {
        PLATFORM_TYPE_DOUYIN
    }
}

// ---------------------------------------------------------------------------
// Checking the request
// ---------------------------------------------------------------------------

/// The platform user id to publish as: the request's, else the parameters'.
pub open spec fn request_third_id(request: PublishRequest, a: AccountParams) -> Seq<char> {
    match request.third_id {
        Some(t) => t@,
        None => crate::model::or_empty(a.third_id),
    }
}

/// Checks a request and creates the account's client: the video path and
/// the parameters must not be empty, and a platform user id must be known
/// (from the request, else from the parameters).
pub fn prepare_client(request: &PublishRequest) -> (r: Result<DouyinClient, PlatformError>)
    ensures
        request.video_path@.len() == 0 ==> (r matches Err(PlatformError::InvalidInput(m)) && m@ == "视频路径不能为空"@),
        request.video_path@.len() > 0 && request.params@.len() == 0 ==>
            (r matches Err(PlatformError::InvalidInput(m)) && m@ == "账号参数不能为空"@),
        request.video_path@.len() > 0 && request.params@.len() > 0 ==> exists|a: AccountParams| #[trigger] params_of_text(request.params@, a) && {
            let tid = request_third_id(*request, a);
            if tid.len() == 0 {
                r matches Err(PlatformError::InvalidInput(m)) && m@ == "thirdId不能为空"@
            } else {
                r matches Ok(c) && c.third_id@ == tid && c.cookie@ == match a.third_param {
                    Some(p) => crate::model::or_empty(p.cookie), None => Seq::empty() }
                    && c.user_agent@ == match a.third_param {
                    Some(p) => crate::model::or_empty(p.user_agent), None => Seq::empty() }
                    && c.csrf_token_map@.len() == 0
            }
        },
{
    if request.video_path.as_str().is_empty() {
        return Err(PlatformError::InvalidInput(String::from_str("视频路径不能为空")));
    }
    if request.params.as_str().is_empty() {
        return Err(PlatformError::InvalidInput(String::from_str("账号参数不能为空")));
    }
    let a = AccountParams::from_json(request.params.as_str());
    let third_id = match &request.third_id {
        Some(t) => t.clone(),
        None => a.get_third_id(),
    };
    if third_id.as_str().is_empty() {
        return Err(PlatformError::InvalidInput(String::from_str("thirdId不能为空")));
    }
    let c = DouyinClient::new(a.get_cookie(), a.get_user_agent(), third_id, a.get_local_data());
    Ok(c)
}

// ---------------------------------------------------------------------------
// Upload credentials
// ---------------------------------------------------------------------------

/// The non-null members of an object.
pub open spec fn non_null_members(m: Seq<(Seq<char>, JsonTree)>) -> Seq<(Seq<char>, JsonTree)> {
    m.filter(|kv: (Seq<char>, JsonTree)| !(kv.1 is Null))
}

/// The upload credentials that the upload options give: the `auth` object's
/// non-null members, or the members of the object written in an `auth`
/// string (none when that text is not a JSON object).
pub open spec fn upload_auth_members(options: JsonTree) -> Option<Seq<(Seq<char>, JsonTree)>> {
    match options.get("auth"@) {
        None => None,
        Some(JsonTree::Object(m)) => Some(non_null_members(m)),
        Some(JsonTree::Str(s)) => Some(match spec_parse_json(s) {
            Ok(JsonTree::Object(m)) => m,
            _ => Seq::empty(),
        }),
        Some(_) => Some(Seq::empty()),
    }
}

fn copy_members(m: &Vec<(String, JsonValue)>, skip_null: bool) -> (r: Vec<(String, JsonValue)>)
    ensures
        member_trees(r@) == if skip_null { non_null_members(member_trees(m@)) } else { member_trees(m@) },
{
    let ghost mt = member_trees(m@);
    let ghost pred = |kv: (Seq<char>, JsonTree)| !(kv.1 is Null);
    proof { lemma_member_trees_index(m@); }
    let mut out: Vec<(String, JsonValue)> = Vec::new();
    let mut i: usize = 0;
    while i < m.len()
        invariant
            i <= m.len(),
            mt == member_trees(m@),
            pred == (|kv: (Seq<char>, JsonTree)| !(kv.1 is Null)),
            mt.len() == m@.len(),
            forall|j: int| 0 <= j < m@.len() ==> #[trigger] mt[j] == (m@[j].0@, m@[j].1@),
            member_trees(out@) == if skip_null { mt.subrange(0, i as int).filter(pred) } else { mt.subrange(0, i as int) },
        decreases m.len() - i,
    {
        let ghost t = mt.subrange(0, i + 1);
        proof {
            assert(t.drop_last() == mt.subrange(0, i as int));
            assert(t.last() == (m@[i as int].0@, m@[i as int].1@));
            reveal(Seq::filter);
            assert(t.filter(pred) == (if pred(t.last()) { t.drop_last().filter(pred).push(t.last()) } else { t.drop_last().filter(pred) }));
        }
        let keep = !skip_null || !m[i].1.is_null();
        let ghost before = out@;
        if keep {
            let item = (m[i].0.clone(), copy_json(&m[i].1));
            let ghost iv = (item.0@, item.1@);
            out.push(item);
            assert(out@.drop_last() == before);
            assert(member_trees(out@) == member_trees(before).push(iv));
            assert(iv == t.last());
        }
        proof {
            assert(t == mt.subrange(0, i as int).push(t.last()));
            if skip_null {
                assert(t.last().1 == m@[i as int].1@);
                assert(pred(t.last()) == !(t.last().1 is Null));
                assert(pred(t.last()) == keep);
            }
        }
        i = i + 1;
    }
    assert(mt.subrange(0, m.len() as int) == mt);
    out
}

/// Reads the upload credentials from the upload options: a missing or
/// empty `auth` is an upload error.
pub fn upload_auth_from(upload_options: &JsonValue) -> (r: Result<Vec<(String, JsonValue)>, PlatformError>)
    ensures
        match upload_auth_members(upload_options@) {
            Some(m) => if m.len() == 0 {
                r matches Err(PlatformError::VideoUploadFailed(e)) && e@ == "获取上传配置失败：auth为空"@
            } else {
                r matches Ok(a) && member_trees(a@) == m
            },
            None => r matches Err(PlatformError::VideoUploadFailed(e)) && e@ == "获取上传配置失败：auth为空"@,
        },
{
    let members: Vec<(String, JsonValue)> = match upload_options.get("auth") {
        None => {
            return Err(PlatformError::VideoUploadFailed(String::from_str("获取上传配置失败：auth为空")));
        },
        Some(JsonValue::Object(m)) => copy_members(m, true),
        Some(JsonValue::Str(s)) => match parse_json(s.as_str()) {
            Ok(JsonValue::Object(m)) => m,
            _ => {
                let e: Vec<(String, JsonValue)> = Vec::new();
                assert(member_trees(e@) =~= Seq::<(Seq<char>, JsonTree)>::empty());
                e
            },
        },
        Some(_) => {
            let e: Vec<(String, JsonValue)> = Vec::new();
            assert(member_trees(e@) =~= Seq::<(Seq<char>, JsonTree)>::empty());
            e
        },
    };
    proof { lemma_member_trees_index(members@); }
    if members.len() == 0 {
        return Err(PlatformError::VideoUploadFailed(String::from_str("获取上传配置失败：auth为空")));
    }
    Ok(members)
}

// ---------------------------------------------------------------------------
// Caption and hashtags
// ---------------------------------------------------------------------------

/// The hashtag id that a suggestion answer gives: the `cid` of the first
/// suggestion, or nothing.
pub open spec fn first_cid(response: JsonTree) -> Seq<char> {
    match response.get("sug_list"@) {
        Some(JsonTree::Array(a)) => if a.len() > 0 { a[0].str_or_empty("cid"@) } else { Seq::empty() },
        _ => Seq::empty(),
    }
}

/// The hashtag (name and id) that the suggestion answer for `keyword` gives.
pub fn challenge_from_search(keyword: &str, response: &JsonValue) -> (r: (String, String))
    ensures
        r.0@ == keyword@,
        r.1@ == first_cid(response@),
{
    let id = match response.get("sug_list") {
        Some(JsonValue::Array(a)) => {
            proof { lemma_trees_index_local(a@); }
            if a.len() > 0 { a[0].str_or_empty("cid") } else { String::new() }
        },
        _ => String::new(),
    };
    (String::from_str(keyword), id)
}

proof fn lemma_trees_index_local(s: Seq<JsonValue>)
    ensures
        trees(s).len() == s.len(),
        forall|i: int| 0 <= i < s.len() ==> #[trigger] trees(s)[i] == s[i]@,
{
    crate::json::lemma_trees_index(s);
}

/// The hashtag used when searching fails: the name with id `0`.
pub fn fallback_challenge(keyword: &str) -> (r: (String, String))
    ensures
        r.0@ == keyword@,
        r.1@ == "0"@,
{
    (String::from_str(keyword), String::from_str("0"))
}

/// `#name` for each hashtag, separated by spaces.
pub open spec fn hashtags_text(names: Seq<Seq<char>>) -> Seq<char>
    decreases names.len(),
{
    if names.len() == 0 {
        Seq::empty()
    } else if names.len() == 1 {
        "#"@ + names[0]
    } else {
        hashtags_text(names.drop_last()) + " #"@ + names.last()
    }
}

/// The names of hashtags.
pub open spec fn challenge_names(c: Seq<(String, String)>) -> Seq<Seq<char>> {
    c.map_values(|x: (String, String)| x.0@)
}

/// The hashtags as text: `#a #b`.
pub fn build_hashtags_string(challenges: &Vec<(String, String)>) -> (r: String)
    ensures
        r@ == hashtags_text(challenge_names(challenges@)),
{
    let ghost names = challenge_names(challenges@);
    let mut out: Vec<char> = Vec::new();
    let mut i: usize = 0;
    proof { reveal_strlit("#"); reveal_strlit(" #"); }
    while i < challenges.len()
        invariant
            i <= challenges.len(),
            names == challenge_names(challenges@),
            out@ == hashtags_text(names.subrange(0, i as int)),
        decreases challenges.len() - i,
    {
        proof {
            reveal_strlit("#");
            reveal_strlit(" #");
            let t = names.subrange(0, i + 1);
            assert(t.drop_last() == names.subrange(0, i as int));
            assert(t.last() == challenges@[i as int].0@);
            if i == 0 {
                assert(t.len() == 1 && t[0] == challenges@[0].0@);
            }
        }
        if i > 0 {
            push_str(&mut out, " #");
        } else {
            push_str(&mut out, "#");
        }
        push_str(&mut out, challenges[i].0.as_str());
        i = i + 1;
    }
    assert(names.subrange(0, challenges.len() as int) == names);
    string_of(out.as_slice())
}

/// The width of `#name`.
pub open spec fn tag_width(name: Seq<char>) -> nat {
    display_width("#"@ + name)
}

/// The total width of the hashtags `#name`.
pub open spec fn total_tag_width(names: Seq<Seq<char>>) -> nat
    decreases names.len(),
{
    if names.len() == 0 { 0 } else { total_tag_width(names.drop_last()) + tag_width(names.last()) }
}

/// The position record of a hashtag in the text and in the caption.
pub open spec fn extra_json(name: Seq<char>, id: Seq<char>, start: int, end: int, cs: int, ce: int) -> JsonTree {
    object_of(seq![
        ("start"@, int_tree(start)),
        ("end"@, int_tree(end)),
        ("type"@, int_tree(1)),
        ("hashtag_name"@, JsonTree::Str(name)),
        ("hashtag_id"@, JsonTree::Str(id)),
        ("user_id"@, JsonTree::Str(Seq::empty())),
        ("caption_start"@, int_tree(cs)),
        ("caption_end"@, int_tree(ce)),
    ])
}

/// The position records of the hashtags: each hashtag `#name` occupies its
/// width, the hashtags follow each other in the caption from its start and
/// in the text from `text_start`.
pub open spec fn text_extra_json(c: Seq<(Seq<char>, Seq<char>)>, text_start: int) -> Seq<JsonTree>
    decreases c.len(),
{
    if c.len() == 0 {
        Seq::empty()
    } else {
        let prev = text_extra_json(c.drop_last(), text_start);
        let pos = total_tag_width(c.drop_last().map_values(|x: (Seq<char>, Seq<char>)| x.0)) as int;
        let w = tag_width(c.last().0) as int;
        prev.push(extra_json(c.last().0, c.last().1, text_start + pos, text_start + pos + w, pos, pos + w))
    }
}

fn num(n: usize) -> (r: JsonValue)
    ensures
        r@ == int_tree(n as int),
{
    JsonValue::Number(JsonNumber::PosInt(n as u64))
}

fn extra_value(name: &String, id: &String, start: usize, end: usize, cs: usize, ce: usize) -> (r: JsonValue)
    ensures
        r@ == extra_json(name@, id@, start as int, end as int, cs as int, ce as int),
{
    let mut o = empty_object();
    obj_set(&mut o, "start", num(start));
    obj_set(&mut o, "end", num(end));
    obj_set(&mut o, "type", num(1));
    obj_set(&mut o, "hashtag_name", JsonValue::Str(name.clone()));
    obj_set(&mut o, "hashtag_id", JsonValue::Str(id.clone()));
    obj_set(&mut o, "user_id", JsonValue::Str(String::new()));
    obj_set(&mut o, "caption_start", num(cs));
    obj_set(&mut o, "caption_end", num(ce));
    proof {
        let s8 = seq![
            ("start"@, int_tree(start as int)),
            ("end"@, int_tree(end as int)),
            ("type"@, int_tree(1)),
            ("hashtag_name"@, JsonTree::Str(name@)),
            ("hashtag_id"@, JsonTree::Str(id@)),
            ("user_id"@, JsonTree::Str(Seq::empty())),
            ("caption_start"@, int_tree(cs as int)),
            ("caption_end"@, int_tree(ce as int)),
        ];
        lemma_object_of_steps(s8);
    }
    o
}

/// `object_of` unfolds one member at a time.
pub proof fn lemma_object_of_steps(s: Seq<(Seq<char>, JsonTree)>)
    ensures
        forall|k: int| 0 < k <= s.len() ==> #[trigger] members_insert_all(Seq::empty(), s.subrange(0, k))
            == members_insert(members_insert_all(Seq::empty(), s.subrange(0, k - 1)), s[k - 1].0, s[k - 1].1),
        members_insert_all(Seq::empty(), s.subrange(0, 0)) == Seq::<(Seq<char>, JsonTree)>::empty(),
        s.subrange(0, s.len() as int) == s,
{
    assert forall|k: int| 0 < k <= s.len() implies #[trigger] members_insert_all(Seq::empty(), s.subrange(0, k))
        == members_insert(members_insert_all(Seq::empty(), s.subrange(0, k - 1)), s[k - 1].0, s[k - 1].1) by {
        assert(s.subrange(0, k).drop_last() == s.subrange(0, k - 1));
        assert(s.subrange(0, k).last() == s[k - 1]);
    }
    assert(s.subrange(0, 0) == Seq::<(Seq<char>, JsonTree)>::empty());
    assert(s.subrange(0, s.len() as int) == s);
}

/// The hashtags as (name, id) texts.
pub open spec fn challenges_view(c: Seq<(String, String)>) -> Seq<(Seq<char>, Seq<char>)> {
    pairs_view(c)
}

proof fn lemma_total_width_names(c: Seq<(Seq<char>, Seq<char>)>, i: int)
    requires
        0 <= i < c.len(),
    ensures
        c.subrange(0, i + 1).map_values(|x: (Seq<char>, Seq<char>)| x.0).drop_last()
            == c.subrange(0, i).map_values(|x: (Seq<char>, Seq<char>)| x.0),
        c.subrange(0, i + 1).map_values(|x: (Seq<char>, Seq<char>)| x.0).last() == c[i].0,
{
    assert(c.subrange(0, i + 1).map_values(|x: (Seq<char>, Seq<char>)| x.0).drop_last()
        =~= c.subrange(0, i).map_values(|x: (Seq<char>, Seq<char>)| x.0));
}

/// The position records of the hashtags, from the text position `text_start`.
pub fn build_text_extra(challenges: &Vec<(String, String)>, text_start: usize) -> (r: Vec<JsonValue>)
    requires
        text_start + total_tag_width(challenge_names(challenges@)) <= usize::MAX,
    ensures
        trees(r@) == text_extra_json(challenges_view(challenges@), text_start as int),
{
    let ghost cv = challenges_view(challenges@);
    let ghost names = challenge_names(challenges@);
    assert(names == cv.map_values(|x: (Seq<char>, Seq<char>)| x.0));
    let mut out: Vec<JsonValue> = Vec::new();
    let mut pos: usize = 0;
    let mut i: usize = 0;
    while i < challenges.len()
        invariant
            i <= challenges.len(),
            cv == challenges_view(challenges@),
            cv.len() == challenges@.len(),
            names == cv.map_values(|x: (Seq<char>, Seq<char>)| x.0),
            text_start + total_tag_width(names) <= usize::MAX,
            pos == total_tag_width(names.subrange(0, i as int)),
            trees(out@) == text_extra_json(cv.subrange(0, i as int), text_start as int),
        decreases challenges.len() - i,
    {
        proof {
            lemma_total_width_names(cv, i as int);
            assert(cv.subrange(0, i + 1).map_values(|x: (Seq<char>, Seq<char>)| x.0) == names.subrange(0, i + 1));
            assert(cv.subrange(0, i as int).map_values(|x: (Seq<char>, Seq<char>)| x.0) == names.subrange(0, i as int));
            lemma_total_width_prefix(names, i as int + 1);
            let t = cv.subrange(0, i + 1);
            assert(t.drop_last() == cv.subrange(0, i as int));
            assert(t.last() == (challenges@[i as int].0@, challenges@[i as int].1@));
        }
        let mut tag = String::from_str("#");
        tag = tag.concat(challenges[i].0.as_str());
        let w = get_string_length(tag.as_str());
        assert(w == tag_width(challenges@[i as int].0@));
        let start = text_start + pos;
        let end = start + w;
        let e = extra_value(&challenges[i].0, &challenges[i].1, start, end, pos, pos + w);
        let ghost before = out@;
        let ghost ev = e@;
        out.push(e);
        proof {
            assert(out@.drop_last() == before);
            assert(trees(out@) == trees(before).push(ev));
        }
        pos = pos + w;
        i = i + 1;
    }
    assert(cv.subrange(0, challenges.len() as int) == cv);
    out
}

/// Prefix widths never exceed the whole.
proof fn lemma_total_width_prefix(names: Seq<Seq<char>>, k: int)
    requires
        0 <= k <= names.len(),
    ensures
        total_tag_width(names.subrange(0, k)) <= total_tag_width(names),
    decreases names.len() - k,
{
    if k < names.len() {
        lemma_total_width_prefix(names, k + 1);
        assert(names.subrange(0, k + 1).drop_last() == names.subrange(0, k));
    } else {
        assert(names.subrange(0, k) == names);
    }
}

/// The composed caption and its hashtags.
pub struct CaptionAndHashtagsResult {
    /// Title, description and hashtags.
    pub text: String,
    /// Description and hashtags.
    pub caption: String,
    pub item_title: String,
    pub challenges: Vec<(String, String)>,
    pub text_extra: Vec<JsonValue>,
}

/// Texts joined by single spaces, leaving out the empty ones after the
/// first.
pub open spec fn join_nonempty(first: Seq<char>, rest: Seq<Seq<char>>) -> Seq<char>
    decreases rest.len(),
{
    if rest.len() == 0 {
        first
    } else if rest.last().len() == 0 {
        join_nonempty(first, rest.drop_last())
    } else {
        join_nonempty(first, rest.drop_last()) + " "@ + rest.last()
    }
}

/// The caption: the description and the hashtags, separated by a space
/// when both are there.
pub open spec fn caption_text(desc: Seq<char>, tags: Seq<char>) -> Seq<char> {
    if desc.len() > 0 && tags.len() > 0 { desc + " "@ + tags }
    else if desc.len() > 0 { desc }
    else if tags.len() > 0 { tags }
    else { Seq::empty() }
}

/// The text: the title, then the description and the hashtags that are
/// there, separated by spaces.
pub open spec fn full_text(title: Seq<char>, desc: Seq<char>, tags: Seq<char>) -> Seq<char> {
    if desc.len() > 0 && tags.len() > 0 { title + " "@ + desc + " "@ + tags }
    else if desc.len() > 0 { title + " "@ + desc }
    else if tags.len() > 0 { title + " "@ + tags }
    else { title }
}

/// Whether `r` is the caption composed from the title, the description
/// and the hashtags: the trimmed title, the description without markup and
/// trimmed, the caption and the text, and the hashtags' positions in the
/// text counted from the title's length in UTF-8 bytes plus one (zero for
/// an empty title).
pub open spec fn caption_of(title: Seq<char>, description: Seq<char>, c: Seq<(Seq<char>, Seq<char>)>,
    r: CaptionAndHashtagsResult) -> bool {
    let t = trimmed(title);
    let d = trimmed(untagged(description, false));
    let tags = hashtags_text(c.map_values(|x: (Seq<char>, Seq<char>)| x.0));
    let start: int = if t.len() == 0 { 0 } else { encode_utf8(t).len() as int + 1 };
    &&& r.item_title@ == t
    &&& r.caption@ == caption_text(d, tags)
    &&& r.text@ == full_text(t, d, tags)
    &&& challenges_view(r.challenges@) == c
    &&& trees(r.text_extra@) == text_extra_json(c, start)
}

fn space_join(a: &str, b: &str) -> (r: String)
    ensures
        r@ == a@ + " "@ + b@,
{
    String::from_str(a).concat(" ").concat(b)
}

/// Composes the caption from the title, the description and the hashtags
/// found for it.
pub fn process_caption_and_hashtags(title: &str, description: &str, challenges: Vec<(String, String)>) -> (r: CaptionAndHashtagsResult)
    requires
        encode_utf8(title@).len() + 1 + total_tag_width(challenge_names(challenges@)) <= usize::MAX,
    ensures
        caption_of(title@, description@, challenges_view(challenges@), r),
{
    let tags = build_hashtags_string(&challenges);
    let item_title = trim_str(title);
    let stripped = strip_html_tags(description);
    let desc = trim_str(stripped.as_str());
    let has_desc = !desc.as_str().is_empty();
    let has_tags = !tags.as_str().is_empty();
    let caption = if has_desc && has_tags {
        space_join(desc.as_str(), tags.as_str())
    } else if has_desc {
        desc.clone()
    } else if has_tags {
        tags.clone()
    } else {
        String::new()
    };
    let text = if has_desc && has_tags {
        space_join(space_join(item_title.as_str(), desc.as_str()).as_str(), tags.as_str())
    } else if has_desc {
        space_join(item_title.as_str(), desc.as_str())
    } else if has_tags {
        space_join(item_title.as_str(), tags.as_str())
    } else {
        item_title.clone()
    };
    proof {
        lemma_trimmed_bytes(title@);
        assert(challenge_names(challenges@) == challenges_view(challenges@).map_values(|x: (Seq<char>, Seq<char>)| x.0));
    }
    let text_start: usize = if item_title.as_str().is_empty() { 0 } else { item_title.as_str().len() + 1 };
    let text_extra = build_text_extra(&challenges, text_start);
    CaptionAndHashtagsResult { text, caption, item_title, challenges, text_extra }
}

/// Trimming does not lengthen the UTF-8 text.
proof fn lemma_trimmed_bytes(s: Seq<char>)
    ensures
        encode_utf8(trimmed(s)).len() <= encode_utf8(s).len(),
{
    crate::text::lemma_lead_ws_bound(s);
    let a = crate::text::lead_ws(s) as int;
    let rest = s.subrange(a, s.len() as int);
    crate::text::lemma_trail_ws_bound(rest);
    let b = rest.len() - crate::text::trail_ws(rest);
    assert(trimmed(s) == s.subrange(a, a + b));
    lemma_encode_subrange_len(s, a, a + b);
}

/// The UTF-8 text of a concatenation is the concatenation of the texts.
pub proof fn lemma_encode_concat(a: Seq<char>, b: Seq<char>)
    ensures
        encode_utf8(a + b) == encode_utf8(a) + encode_utf8(b),
    decreases a.len(),
{
    if a.len() > 0 {
        lemma_encode_concat(a.drop_first(), b);
        assert((a + b).drop_first() == a.drop_first() + b);
        assert((a + b)[0] == a[0]);
    } else {
        assert(a + b == b);
    }
}

/// A slice of a text has no more UTF-8 bytes than the text.
proof fn lemma_encode_subrange_len(s: Seq<char>, i: int, j: int)
    requires
        0 <= i <= j <= s.len(),
    ensures
        encode_utf8(s.subrange(i, j)).len() <= encode_utf8(s).len(),
{
    let x = s.subrange(0, i);
    let y = s.subrange(i, j);
    let z = s.subrange(j, s.len() as int);
    assert(s == x + y + z);
    lemma_encode_concat(x + y, z);
    lemma_encode_concat(x, y);
}

// ---------------------------------------------------------------------------
// The publication data
// ---------------------------------------------------------------------------

/// An object built by setting each member of `pairs` in turn.
pub fn object_from(pairs: Vec<(String, JsonValue)>) -> (r: JsonValue)
    ensures
        r@ == object_of(member_trees(pairs@)),
{
    let ghost all = member_trees(pairs@);
    proof { lemma_member_trees_index(pairs@); }
    let mut o = empty_object();
    let mut rest = pairs;
    let ghost orig = rest@;
    assert(orig.len() == rest.len());
    let mut i: usize = 0;
    assert(all.subrange(0, 0) =~= Seq::<(Seq<char>, JsonTree)>::empty());
    while rest.len() > 0
        invariant
            i + rest@.len() == orig.len(),
            orig.len() <= usize::MAX,
            all == member_trees(orig),
            all.len() == orig.len(),
            forall|j: int| 0 <= j < orig.len() ==> #[trigger] all[j] == (orig[j].0@, orig[j].1@),
            forall|j: int| 0 <= j < rest@.len() ==> #[trigger] rest@[j] == orig[i + j],
            o@ == JsonTree::Object(members_insert_all(Seq::empty(), all.subrange(0, i as int))),
        decreases rest.len(),
    {
        let ghost old_rest = rest@;
        let (k, v) = rest.remove(0);
        assert(orig[i as int] == (k, v));
        proof {
            let t = all.subrange(0, i + 1);
            assert(t.drop_last() == all.subrange(0, i as int));
            assert(t.last() == (k@, v@));
        }
        obj_set(&mut o, k.as_str(), v);
        assert forall|j: int| 0 <= j < rest@.len() implies #[trigger] rest@[j] == orig[i + 1 + j] by {
            assert(rest@[j] == old_rest[j + 1]);
        }
        i = i + 1;
    }
    assert(all.subrange(0, orig.len() as int) == all);
    o
}

fn kv(k: &str, v: JsonValue) -> (r: (String, JsonValue))
    ensures
        r.0@ == k@,
        r.1@ == v@,
{
    (String::from_str(k), v)
}

fn jstring(s: String) -> (r: JsonValue)
    ensures
        r@ == JsonTree::Str(s@),
{
    JsonValue::Str(s)
}

/// The text of a music field, or nothing.
pub open spec fn music_field(music_info: Option<Vec<(String, String)>>, k: Seq<char>) -> Seq<char> {
    match music_info {
        Some(m) => match pairs_lookup(pairs_view(m@), k) { Some(v) => v, None => Seq::empty() },
        None => Seq::empty(),
    }
}

/// The members of the `common` part of the publication data, in the order
/// they are set (a later member of the same name replaces an earlier one).
pub open spec fn common_pairs(c: CaptionAndHashtagsResult, video_id: Seq<char>, request: PublishRequest,
    creation_id: Seq<char>, timing: i64) -> Seq<(Seq<char>, JsonTree)> {
    let music_id = music_field(request.music_info, "music_id"@);
    let base = seq![
        ("text"@, JsonTree::Str(trimmed(c.text@))),
        ("caption"@, JsonTree::Str(trimmed(c.caption@))),
        ("item_title"@, JsonTree::Str(c.item_title@)),
        ("activity"@, JsonTree::Str("[]"@)),
        ("text_extra"@, JsonTree::Str(json_text(JsonTree::Array(trees(c.text_extra@))))),
        ("challenges"@, JsonTree::Str("[]"@)),
        ("mentions"@, JsonTree::Str("[]"@)),
        ("hashtag_source"@, JsonTree::Str(if c.challenges@.len() == 0 { Seq::empty() } else { "search/search"@ })),
        ("hot_sentence"@, JsonTree::Str(Seq::empty())),
        ("download"@, int_tree(match request.download_allowed { Some(d) => d as int, None => 1 })),
        ("visibility_type"@, int_tree(match request.visibility_type { Some(v) => v as int, None => 0 })),
        ("timing"@, int_tree(0)),
        ("creation_id"@, JsonTree::Str(creation_id)),
        ("media_type"@, int_tree(4)),
        ("video_id"@, JsonTree::Str(video_id)),
        ("source_info"@, JsonTree::Str("{}"@)),
    ];
    let with_music = if music_id.len() > 0 {
        base + seq![("music_source"@, int_tree(1)), ("music_id"@, JsonTree::Str(music_id)),
            ("music_end_time"@, JsonTree::Str(music_field(request.music_info, "music_end_time"@)))]
    } else {
        base + seq![("music_source"@, int_tree(0)), ("music_id"@, JsonTree::Null)]
    };
    match request.timeout {
        Some(t) => if t > 0 { with_music.push(("timing"@, int_tree(timing as int))) } else { with_music },
        None => with_music,
    }
}

/// Whether a POI id is usable: not empty and not `null`.
pub open spec fn poi_usable(p: Seq<char>) -> bool {
    p.len() > 0 && p != "null"@
}

/// The POI members: id, name and the POI anchor content.
pub open spec fn poi_pairs(id: Seq<char>, name: Seq<char>) -> Seq<(Seq<char>, JsonTree)> {
    seq![("poi_id"@, JsonTree::Str(id)), ("poi_name"@, JsonTree::Str(name)),
        ("anchor_content"@, JsonTree::Str("{\"is_commerce_intention\":true,\"recommend_poi_group\":true,\"primary_recommend_product_type\":1}"@))]
}

/// The string member `k` of an object value, or nothing.
pub open spec fn obj_str(o: JsonTree, k: Seq<char>) -> Seq<char> {
    o.str_or_empty(k)
}

/// The members of the `anchor` part, in the order they are set: the
/// request's POI when usable, then the anchor's POI component when usable,
/// then the anchor's shop cart draft when usable.
pub open spec fn anchor_pairs(request: PublishRequest) -> Seq<(Seq<char>, JsonTree)> {
    let p1 = match request.poi_id {
        Some(p) => if poi_usable(p@) { poi_pairs(p@, crate::model::or_empty(request.poi_name)) } else { Seq::empty() },
        None => Seq::empty(),
    };
    match request.anchor {
        Some(a) => {
            let m = member_trees(a@);
            let p2 = match crate::json::members_lookup(m, "poi_component"@) {
                Some(JsonTree::Object(po)) => {
                    let id = obj_str(JsonTree::Object(po), "poi_id"@);
                    if poi_usable(id) { poi_pairs(id, obj_str(JsonTree::Object(po), "poi_name"@)) } else { Seq::empty() }
                },
                _ => Seq::empty(),
            };
            let p3 = match crate::json::members_lookup(m, "shop_cart"@) {
                Some(JsonTree::Object(so)) => {
                    let d = obj_str(JsonTree::Object(so), "shop_draft_id"@);
                    if poi_usable(d) { seq![("shop_draft_id"@, JsonTree::Str(d))] } else { Seq::empty() }
                },
                _ => Seq::empty(),
            };
            p1 + p2 + p3
        },
        None => p1,
    }
}

/// The `declare` part: the self declaration of the extra information as
/// compact JSON text, or `{}`.
pub open spec fn declare_json(extra_info: Option<Vec<(String, JsonValue)>>) -> JsonTree {
    let info = match extra_info {
        Some(e) => match crate::json::members_lookup(member_trees(e@), "self_declaration"@) {
            Some(v) => json_text(v),
            None => "{}"@,
        },
        None => "{}"@,
    };
    object_of(seq![("user_declare_info"@, JsonTree::Str(info))])
}

/// The `sync` part.
pub open spec fn sync_json() -> JsonTree {
    object_of(seq![("should_sync"@, JsonTree::Bool(false)), ("sync_to_toutiao"@, int_tree(0))])
}

/// The `assistant` part.
pub open spec fn assistant_json() -> JsonTree {
    object_of(seq![("is_preview"@, int_tree(0)), ("is_post_assistant"@, int_tree(1))])
}

/// The publication data: the `item` with its parts, and for a scheduled
/// publication (positive timeout) the timeout and the send time.
pub open spec fn publish_data_json(c: CaptionAndHashtagsResult, video_id: Seq<char>, request: PublishRequest,
    creation_id: Seq<char>, timing: i64) -> JsonTree {
    let item = object_of(seq![
        ("common"@, object_of(common_pairs(c, video_id, request, creation_id, timing))),
        ("anchor"@, object_of(anchor_pairs(request))),
        ("mix"@, JsonTree::Object(Seq::empty())),
        ("sync"@, sync_json()),
        ("open_platform"@, JsonTree::Object(Seq::empty())),
        ("assistant"@, assistant_json()),
        ("declare"@, declare_json(request.extra_info)),
    ]);
    let top = seq![("item"@, item)];
    object_of(match request.timeout {
        Some(t) => if t > 0 {
            top + seq![("timeOut"@, int_tree(t as int)),
                ("sendTime"@, int_tree(match request.send_time { Some(s) => s as int, None => 0 }))]
        } else { top },
        None => top,
    })
}

fn member_of<'a>(v: &'a Vec<(String, JsonValue)>, k: &str) -> (r: Option<&'a JsonValue>)
    ensures
        match r {
            Some(x) => crate::json::members_lookup(member_trees(v@), k@) == Some(x@),
            None => crate::json::members_lookup(member_trees(v@), k@) is None,
        },
{
    let ghost m = member_trees(v@);
    proof { lemma_member_trees_index(v@); }
    assert(m.subrange(0, m.len() as int) == m);
    let mut i: usize = 0;
    while i < v.len()
        invariant
            i <= v.len(),
            m == member_trees(v@),
            m.len() == v@.len(),
            forall|j: int| 0 <= j < v@.len() ==> #[trigger] m[j] == (v@[j].0@, v@[j].1@),
            crate::json::members_lookup(m, k@) == crate::json::members_lookup(m.subrange(i as int, m.len() as int), k@),
        decreases v.len() - i,
    {
        proof {
            let t = m.subrange(i as int, m.len() as int);
            assert(t[0] == m[i as int]);
            assert(t.subrange(1, t.len() as int) == m.subrange(i + 1, m.len() as int));
        }
        if crate::chars::str_eq(v[i].0.as_str(), k) {
            return Some(&v[i].1);
        }
        i = i + 1;
    }
    None
}

fn music_value(music_info: &Option<Vec<(String, String)>>, k: &str) -> (r: String)
    ensures
        r@ == music_field(*music_info, k@),
{
    match music_info {
        Some(m) => match get_pair(m, k) { Some(v) => v.clone(), None => String::new() },
        None => String::new(),
    }
}

fn lit_json(s: &str) -> (r: JsonValue)
    ensures
        r@ == JsonTree::Str(s@),
{
    jstr(s)
}

fn int_value(i: i64) -> (r: JsonValue)
    ensures
        r@ == int_tree(i as int),
{
    jint(i)
}

fn push_pair(v: &mut Vec<(String, JsonValue)>, k: &str, x: JsonValue)
    ensures
        member_trees(final(v)@) == member_trees(old(v)@).push((k@, x@)),
{
    let ghost before = v@;
    let p = kv(k, x);
    let ghost pv = (p.0@, p.1@);
    v.push(p);
    assert(v@.drop_last() == before);
}

fn push_poi(v: &mut Vec<(String, JsonValue)>, id: String, name: String)
    ensures
        member_trees(final(v)@) == member_trees(old(v)@) + poi_pairs(id@, name@),
{
    let ghost m0 = member_trees(v@);
    push_pair(v, "poi_id", jstring(id));
    push_pair(v, "poi_name", jstring(name));
    push_pair(v, "anchor_content", jstring(crate::douyin_utils::format_poi_anchor_content()));
    assert(member_trees(v@) =~= m0 + poi_pairs(id@, name@));
}

fn is_usable_poi(p: &str) -> (r: bool)
    ensures
        r == poi_usable(p@),
{
    !p.is_empty() && !crate::chars::str_eq(p, "null")
}

/// The `anchor` part of the publication data.
pub fn build_anchor_data(request: &PublishRequest) -> (r: JsonValue)
    ensures
        r@ == object_of(anchor_pairs(*request)),
{
    let mut v: Vec<(String, JsonValue)> = Vec::new();
    assert(member_trees(v@) =~= Seq::<(Seq<char>, JsonTree)>::empty());
    match &request.poi_id {
        Some(p) => {
            if is_usable_poi(p.as_str()) {
                let name = match &request.poi_name { Some(n) => n.clone(), None => String::new() };
                push_poi(&mut v, p.clone(), name);
                assert(member_trees(v@) =~= poi_pairs(p@, crate::model::or_empty(request.poi_name)));
            }
        },
        None => {},
    }
    let ghost p1 = member_trees(v@);
    match &request.anchor {
        Some(a) => {
            let ghost m = member_trees(a@);
            match member_of(a, "poi_component") {
                Some(x) => {
                    if x.is_object() {
                        let id = x.str_or_empty("poi_id");
                        if is_usable_poi(id.as_str()) {
                            let name = x.str_or_empty("poi_name");
                            push_poi(&mut v, id, name);
                        }
                    }
                },
                None => {},
            }
            let ghost p2 = member_trees(v@);
            match member_of(a, "shop_cart") {
                Some(x) => {
                    if x.is_object() {
                        let d = x.str_or_empty("shop_draft_id");
                        if is_usable_poi(d.as_str()) {
                            let ghost dv = d@;
                            push_pair(&mut v, "shop_draft_id", jstring(d));
                            assert(member_trees(v@) =~= p2 + seq![("shop_draft_id"@, JsonTree::Str(dv))]);
                        } else {
                            assert(member_trees(v@) =~= p2 + Seq::<(Seq<char>, JsonTree)>::empty());
                        }
                    } else {
                        assert(member_trees(v@) =~= p2 + Seq::<(Seq<char>, JsonTree)>::empty());
                    }
                },
                None => {
                    assert(member_trees(v@) =~= p2 + Seq::<(Seq<char>, JsonTree)>::empty());
                },
            }
            assert(member_trees(v@) == anchor_pairs(*request));
        },
        None => {},
    }
    object_from(v)
}

/// The `sync` part of the publication data.
pub fn create_sync_data() -> (r: JsonValue)
    ensures
        r@ == sync_json(),
{
    let mut v: Vec<(String, JsonValue)> = Vec::new();
    assert(member_trees(v@) =~= Seq::<(Seq<char>, JsonTree)>::empty());
    push_pair(&mut v, "should_sync", JsonValue::Bool(false));
    push_pair(&mut v, "sync_to_toutiao", int_value(0));
    assert(member_trees(v@) =~= seq![("should_sync"@, JsonTree::Bool(false)), ("sync_to_toutiao"@, int_tree(0))]);
    object_from(v)
}

/// The `assistant` part of the publication data.
pub fn create_assistant_data() -> (r: JsonValue)
    ensures
        r@ == assistant_json(),
{
    let mut v: Vec<(String, JsonValue)> = Vec::new();
    assert(member_trees(v@) =~= Seq::<(Seq<char>, JsonTree)>::empty());
    push_pair(&mut v, "is_preview", int_value(0));
    push_pair(&mut v, "is_post_assistant", int_value(1));
    assert(member_trees(v@) =~= seq![("is_preview"@, int_tree(0)), ("is_post_assistant"@, int_tree(1))]);
    object_from(v)
}

/// The `declare` part of the publication data.
pub fn create_declare_data(extra_info: &Option<Vec<(String, JsonValue)>>) -> (r: JsonValue)
    ensures
        r@ == declare_json(*extra_info),
{
    let info = match extra_info {
        Some(e) => match member_of(e, "self_declaration") {
            Some(d) => to_json_string(d),
            None => String::from_str("{}"),
        },
        None => String::from_str("{}"),
    };
    let mut v: Vec<(String, JsonValue)> = Vec::new();
    assert(member_trees(v@) =~= Seq::<(Seq<char>, JsonTree)>::empty());
    let ghost iv = info@;
    push_pair(&mut v, "user_declare_info", jstring(info));
    assert(member_trees(v@) =~= seq![("user_declare_info"@, JsonTree::Str(iv))]);
    object_from(v)
}

fn copy_values(v: &Vec<JsonValue>) -> (r: Vec<JsonValue>)
    ensures
        trees(r@) == trees(v@),
{
    let mut out: Vec<JsonValue> = Vec::new();
    let mut i: usize = 0;
    while i < v.len()
        invariant
            i <= v.len(),
            trees(out@) == trees(v@.subrange(0, i as int)),
        decreases v.len() - i,
    {
        let x = copy_json(&v[i]);
        let ghost before = out@;
        let ghost xv = x@;
        out.push(x);
        proof {
            assert(out@.drop_last() == before);
            assert(v@.subrange(0, i + 1).drop_last() == v@.subrange(0, i as int));
        }
        i = i + 1;
    }
    assert(v@.subrange(0, v.len() as int) == v@);
    out
}

/// The publication data for the composed caption, the uploaded video, the
/// request, a creation id and the publish time `timing` (used for a
/// scheduled publication).
pub fn build_publish_data_with(c: &CaptionAndHashtagsResult, video_id: &str, request: &PublishRequest,
    creation_id: &str, timing: i64) -> (r: JsonValue)
    ensures
        r@ == publish_data_json(*c, video_id@, *request, creation_id@, timing),
{
    let music_id = music_value(&request.music_info, "music_id");
    let mut common: Vec<(String, JsonValue)> = Vec::new();
    assert(member_trees(common@) =~= Seq::<(Seq<char>, JsonTree)>::empty());
    push_pair(&mut common, "text", jstring(trim_str(c.text.as_str())));
    push_pair(&mut common, "caption", jstring(trim_str(c.caption.as_str())));
    push_pair(&mut common, "item_title", jstring(c.item_title.clone()));
    push_pair(&mut common, "activity", lit_json("[]"));
    push_pair(&mut common, "text_extra", jstring(to_json_string(&JsonValue::Array(copy_values(&c.text_extra)))));
    push_pair(&mut common, "challenges", lit_json("[]"));
    push_pair(&mut common, "mentions", lit_json("[]"));
    push_pair(&mut common, "hashtag_source", if c.challenges.len() == 0 { jstring(String::new()) } else { lit_json("search/search") });
    push_pair(&mut common, "hot_sentence", jstring(String::new()));
    let download: i64 = match request.download_allowed { Some(d) => d as i64, None => 1 };
    let visibility: i64 = match request.visibility_type { Some(d) => d as i64, None => 0 };
    push_pair(&mut common, "download", int_value(download));
    push_pair(&mut common, "visibility_type", int_value(visibility));
    push_pair(&mut common, "timing", int_value(0));
    push_pair(&mut common, "creation_id", lit_json(creation_id));
    push_pair(&mut common, "media_type", int_value(4));
    push_pair(&mut common, "video_id", lit_json(video_id));
    push_pair(&mut common, "source_info", lit_json("{}"));
    let ghost base = member_trees(common@);
    if !music_id.as_str().is_empty() {
        let ghost mv = music_id@;
        push_pair(&mut common, "music_source", int_value(1));
        push_pair(&mut common, "music_id", jstring(music_id));
        push_pair(&mut common, "music_end_time", jstring(music_value(&request.music_info, "music_end_time")));
        assert(member_trees(common@) =~= base + seq![("music_source"@, int_tree(1)), ("music_id"@, JsonTree::Str(mv)),
            ("music_end_time"@, JsonTree::Str(music_field(request.music_info, "music_end_time"@)))]);
    } else {
        push_pair(&mut common, "music_source", int_value(0));
        push_pair(&mut common, "music_id", JsonValue::Null);
        assert(member_trees(common@) =~= base + seq![("music_source"@, int_tree(0)), ("music_id"@, JsonTree::Null)]);
    }
    let scheduled = match request.timeout { Some(t) => t > 0, None => false };
    if scheduled {
        push_pair(&mut common, "timing", int_value(timing));
    }
    proof {
        reveal_strlit("");
        assert(trees(c.text_extra@) == trees(c.text_extra@));
    }
    assert(member_trees(common@) =~= common_pairs(*c, video_id@, *request, creation_id@, timing));
    let common_obj = object_from(common);
    let mut item: Vec<(String, JsonValue)> = Vec::new();
    assert(member_trees(item@) =~= Seq::<(Seq<char>, JsonTree)>::empty());
    push_pair(&mut item, "common", common_obj);
    push_pair(&mut item, "anchor", build_anchor_data(request));
    push_pair(&mut item, "mix", empty_object());
    push_pair(&mut item, "sync", create_sync_data());
    push_pair(&mut item, "open_platform", empty_object());
    push_pair(&mut item, "assistant", create_assistant_data());
    push_pair(&mut item, "declare", create_declare_data(&request.extra_info));
    assert(member_trees(item@) =~= seq![
        ("common"@, object_of(common_pairs(*c, video_id@, *request, creation_id@, timing))),
        ("anchor"@, object_of(anchor_pairs(*request))),
        ("mix"@, JsonTree::Object(Seq::empty())),
        ("sync"@, sync_json()),
        ("open_platform"@, JsonTree::Object(Seq::empty())),
        ("assistant"@, assistant_json()),
        ("declare"@, declare_json(request.extra_info)),
    ]);
    let item_obj = object_from(item);
    let mut top: Vec<(String, JsonValue)> = Vec::new();
    assert(member_trees(top@) =~= Seq::<(Seq<char>, JsonTree)>::empty());
    push_pair(&mut top, "item", item_obj);
    let ghost t1 = member_trees(top@);
    if scheduled {
        let t = match request.timeout { Some(t) => t, None => 0 };
        let st = match request.send_time { Some(s) => s, None => 0 };
        push_pair(&mut top, "timeOut", int_value(t));
        push_pair(&mut top, "sendTime", int_value(st));
        assert(member_trees(top@) =~= t1 + seq![("timeOut"@, int_tree(t as int)), ("sendTime"@, int_tree(st as int))]);
    }
    assert(t1 =~= seq![("item"@, item_obj@)]);
    let ghost topv = seq![("item"@, item_obj@)];
    assert(member_trees(top@) =~= match request.timeout {
        Some(t) => if t > 0 {
            topv + seq![("timeOut"@, int_tree(t as int)),
                ("sendTime"@, int_tree(match request.send_time { Some(s) => s as int, None => 0 }))]
        } else { topv },
        None => topv,
    });
    assert(item_obj@ == object_of(seq![
        ("common"@, object_of(common_pairs(*c, video_id@, *request, creation_id@, timing))),
        ("anchor"@, object_of(anchor_pairs(*request))),
        ("mix"@, JsonTree::Object(Seq::empty())),
        ("sync"@, sync_json()),
        ("open_platform"@, JsonTree::Object(Seq::empty())),
        ("assistant"@, assistant_json()),
        ("declare"@, declare_json(request.extra_info)),
    ]));
    object_from(top)
}

/// Whether `id` is a creation id: a clock reading in milliseconds followed
/// by four digits of a random number.
pub open spec fn is_creation_id(id: Seq<char>) -> bool {
    exists|millis: nat, random: u32| id == #[trigger] crate::douyin_utils::creation_id_text(millis, random)
}

/// Whether `timing` is the publish time of `request`: zero unless it is
/// scheduled (a positive timeout); for a scheduled one the requested send
/// time when there is one (positive), else the timeout added to a clock
/// reading in seconds (limited to the range of `i64`).
pub open spec fn timing_for(request: PublishRequest, timing: i64) -> bool {
    match request.timeout {
        Some(t) => if t > 0 {
            match request.send_time {
                Some(st) => if st > 0 { timing == st } else { timing_from_clock(t, timing) },
                None => timing_from_clock(t, timing),
            }
        } else { timing == 0 },
        None => timing == 0,
    }
}

/// Whether `timing` is `timeout` seconds after some clock reading.
pub open spec fn timing_from_clock(timeout: i64, timing: i64) -> bool {
    exists|now: int| #[trigger] crate::douyin_utils::clock_reading(now)
        && timing == crate::douyin_utils::clamp_i64(now + timeout)
}

/// The publication data, with a new creation id and, for a scheduled
/// publication, the publish time computed from the timeout and the send
/// time.
pub fn build_publish_data(c: &CaptionAndHashtagsResult, video_id: &str, request: &PublishRequest) -> (r: JsonValue)
    ensures
        exists|creation_id: Seq<char>, timing: i64| r@ == #[trigger] publish_data_json(*c, video_id@, *request, creation_id, timing)
            && is_creation_id(creation_id) && timing_for(*request, timing),
{
    let creation_id = crate::douyin_utils::generate_creation_id();
    let timing = match request.timeout {
        Some(t) => if t > 0 {
            crate::douyin_utils::calculate_timing(t, match request.send_time { Some(s) => s, None => 0 })
        } else { 0 },
        None => 0,
    };
    assert(is_creation_id(creation_id@));
    assert(timing_for(*request, timing));
    build_publish_data_with(c, video_id, request, creation_id.as_str(), timing)
}

/// The publish time recorded in publication data (`item.common.timing`),
/// zero when missing or not an integer.
pub open spec fn timing_of(data: JsonTree) -> i64 {
    match data.get("item"@) {
        Some(item) => match item.get("common"@) {
            Some(common) => match common.get("timing"@) {
                Some(t) => match t.as_i64() { Some(v) => v, None => 0 },
                None => 0,
            },
            None => 0,
        },
        None => 0,
    }
}

/// The publish time recorded in publication data.
pub fn get_timing_from_publish_data(publish_data: &JsonValue) -> (r: i64)
    ensures
        r == timing_of(publish_data@),
{
    match publish_data.get("item") {
        Some(item) => match item.get("common") {
            Some(common) => match common.get("timing") {
                Some(t) => match t.as_i64() { Some(v) => v, None => 0 },
                None => 0,
            },
            None => 0,
        },
        None => 0,
    }
}

/// The published item's id in the answer (`aweme.item_id`), or nothing.
pub open spec fn item_id_of(result: JsonTree) -> Seq<char> {
    match result.get("aweme"@) {
        Some(a) => a.str_or_empty("item_id"@),
        None => Seq::empty(),
    }
}

/// The published item's id in the answer.
pub fn get_item_id_from_result(post_result: &JsonValue) -> (r: String)
    ensures
        r@ == item_id_of(post_result@),
{
    match post_result.get("aweme") {
        Some(a) => a.str_or_empty("item_id"),
        None => String::new(),
    }
}

/// The outcome of a publication from the answer of the publication
/// request: a failed request is a publication error with its message; a
/// good answer is a success carrying the record id (or nothing) and the
/// published item's id.
pub fn publish_outcome(record_id: &Option<String>, post_result: Result<JsonValue, String>) -> (r: Result<PublishResult, PlatformError>)
    ensures
        match post_result {
            Err(e) => r matches Err(PlatformError::PublicationFailed(m)) && m@ == e@,
            Ok(v) => r matches Ok(p) && p.success && p.publication_id@ == crate::model::or_empty(*record_id)
                && (p.item_id matches Some(i) && i@ == item_id_of(v@)) && p.error_message is None,
        },
{
    match post_result {
        Err(e) => Err(PlatformError::PublicationFailed(e)),
        Ok(v) => {
            let item_id = get_item_id_from_result(&v);
            let pid = match record_id { Some(r) => r.clone(), None => String::new() };
            Ok(PublishResult { success: true, publication_id: pid, item_id: Some(item_id), error_message: None })
        },
    }
}

} // verus!
