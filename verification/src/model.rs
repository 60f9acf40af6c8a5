//! The account and publication model shared by all platforms: platform and
//! status kinds, accounts and their credentials, publication tasks with
//! their per-account details, and the platform error kinds.

use vstd::prelude::*;
use crate::chars::{chars_of, string_of, push_str, chars_eq, str_eq};
use crate::crypto::{to_lowercase, spec_to_lowercase};
use crate::json::{JsonValue, JsonTree, parse_json, spec_parse_json, trees};
use crate::numfmt::{parse_i64, spec_parse_i64};

verus! {

// ---------------------------------------------------------------------------
// Platforms and statuses
// ---------------------------------------------------------------------------

/// A publishing platform.
#[derive(PartialEq, Eq, Structural, Clone, Copy, Debug, Hash)]
pub enum PlatformType {
    Douyin,
    Xiaohongshu,
    Kuaishou,
    Bilibili,
}

/// State of a stored account.
#[derive(PartialEq, Eq, Structural, Clone, Copy, Debug)]
pub enum AccountStatus {
    Active,
    Expired,
    Pending,
}

/// State of a publication (a task or one account's part of it).
#[derive(PartialEq, Eq, Structural, Clone, Copy, Debug)]
pub enum PublicationStatus {
    Draft,
    Publishing,
    Completed,
    Failed,
}

/// The display name of a platform.
pub open spec fn spec_display_name(p: PlatformType) -> Seq<char> {
    match p {
        PlatformType::Douyin => "抖音"@,
        PlatformType::Xiaohongshu => "小红书"@,
        PlatformType::Kuaishou => "快手"@,
        PlatformType::Bilibili => "B站"@,
    }
}

/// The variant name of a platform, as its `Debug` rendering writes it.
pub open spec fn spec_platform_name(p: PlatformType) -> Seq<char> {
    match p {
        PlatformType::Douyin => "Douyin"@,
        PlatformType::Xiaohongshu => "Xiaohongshu"@,
        PlatformType::Kuaishou => "Kuaishou"@,
        PlatformType::Bilibili => "Bilibili"@,
    }
}

/// The variant name of a publication status.
pub open spec fn spec_status_name(s: PublicationStatus) -> Seq<char> {
    match s {
        PublicationStatus::Draft => "Draft"@,
        PublicationStatus::Publishing => "Publishing"@,
        PublicationStatus::Completed => "Completed"@,
        PublicationStatus::Failed => "Failed"@,
    }
}

/// The variant name of an account status.
pub open spec fn spec_account_status_name(s: AccountStatus) -> Seq<char> {
    match s {
        AccountStatus::Active => "Active"@,
        AccountStatus::Expired => "Expired"@,
        AccountStatus::Pending => "Pending"@,
    }
}

fn lit(x: &str) -> (r: String)
    ensures
        r@ == x@,
{
    String::from_str(x)
}

impl PlatformType {
    /// The platform's display name.
    pub fn display_name(&self) -> (r: String)
        ensures
            r@ == spec_display_name(*self),
    {
        match self {
            PlatformType::Douyin => lit("抖音"),
            PlatformType::Xiaohongshu => lit("小红书"),
            PlatformType::Kuaishou => lit("快手"),
            PlatformType::Bilibili => lit("B站"),
        }
    }

    /// The platform's variant name (`Douyin`, ...), the text stored for it.
    pub fn name(&self) -> (r: String)
        ensures
            r@ == spec_platform_name(*self),
    {
        match self {
            PlatformType::Douyin => lit("Douyin"),
            PlatformType::Xiaohongshu => lit("Xiaohongshu"),
            PlatformType::Kuaishou => lit("Kuaishou"),
            PlatformType::Bilibili => lit("Bilibili"),
        }
    }
}

impl PublicationStatus {
    /// The status's variant name (`Draft`, ...), the text stored for it.
    pub fn name(&self) -> (r: String)
        ensures
            r@ == spec_status_name(*self),
    {
        match self {
            PublicationStatus::Draft => lit("Draft"),
            PublicationStatus::Publishing => lit("Publishing"),
            PublicationStatus::Completed => lit("Completed"),
            PublicationStatus::Failed => lit("Failed"),
        }
    }
}

impl AccountStatus {
    /// The status's variant name (`Active`, ...), the text stored for it.
    pub fn name(&self) -> (r: String)
        ensures
            r@ == spec_account_status_name(*self),
    {
        match self {
            AccountStatus::Active => lit("Active"),
            AccountStatus::Expired => lit("Expired"),
            AccountStatus::Pending => lit("Pending"),
        }
    }
}

/// Whether `s` is one of the literal texts.
fn eq_lit(s: &[char], l: &str) -> (r: bool)
    ensures
        r == (s@ == l@),
{
    let c = chars_of(l);
    chars_eq(s, c.as_slice())
}

/// The platform named by a lowercase name, defaulting to Douyin.
pub open spec fn platform_of_lower(l: Seq<char>) -> PlatformType {
    if l == "douyin"@ {
        PlatformType::Douyin
    } else if l == "xiaohongshu"@ {
        PlatformType::Xiaohongshu
    } else if l == "kuaishou"@ {
        PlatformType::Kuaishou
    } else if l == "bilibili"@ {
        PlatformType::Bilibili
    } else {
        PlatformType::Douyin
    }
}

/// The platform named by the lowercase form of `s`, defaulting to Douyin.
pub open spec fn spec_parse_platform(s: Seq<char>) -> PlatformType {
    platform_of_lower(spec_to_lowercase(s))
}

/// Whether every character is ASCII.
pub open spec fn all_ascii(s: Seq<char>) -> bool {
    forall|i: int| 0 <= i < s.len() ==> (s[i] as u32) < 128
}

/// The ASCII lowercase form of a text.
pub open spec fn ascii_lowercase(s: Seq<char>) -> Seq<char> {
    s.map_values(|c: char| crate::crypto::ascii_lower(c))
}

/// The account status named by a lowercase name, defaulting to Pending.
pub open spec fn account_status_of_lower(l: Seq<char>) -> AccountStatus {
    if l == "active"@ {
        AccountStatus::Active
    } else if l == "expired"@ {
        AccountStatus::Expired
    } else {
        AccountStatus::Pending
    }
}

/// The account status named by the lowercase form of `s`, defaulting to Pending.
pub open spec fn spec_parse_status(s: Seq<char>) -> AccountStatus {
    account_status_of_lower(spec_to_lowercase(s))
}

/// The publication status named by a lowercase name, defaulting to Draft.
pub open spec fn publication_status_of_lower(l: Seq<char>) -> PublicationStatus {
    if l == "draft"@ {
        PublicationStatus::Draft
    } else if l == "publishing"@ {
        PublicationStatus::Publishing
    } else if l == "completed"@ {
        PublicationStatus::Completed
    } else if l == "failed"@ {
        PublicationStatus::Failed
    } else {
        PublicationStatus::Draft
    }
}

/// The publication status named by the lowercase form of `s`, defaulting to Draft.
pub open spec fn spec_parse_publication_status(s: Seq<char>) -> PublicationStatus {
    publication_status_of_lower(spec_to_lowercase(s))
}

/// A stored platform name reads back as the platform: the name that
/// `PlatformType::name` writes is ASCII, and `parse_platform` maps it back.
pub proof fn law_platform_name_round_trip(p: PlatformType)
    ensures
        all_ascii(spec_platform_name(p)),
        platform_of_lower(ascii_lowercase(spec_platform_name(p))) == p,
{
    reveal_strlit("Douyin"); reveal_strlit("douyin");
    reveal_strlit("Xiaohongshu"); reveal_strlit("xiaohongshu");
    reveal_strlit("Kuaishou"); reveal_strlit("kuaishou");
    reveal_strlit("Bilibili"); reveal_strlit("bilibili");
    let n = spec_platform_name(p);
    assert(ascii_lowercase(n) =~= match p {
        PlatformType::Douyin => "douyin"@,
        PlatformType::Xiaohongshu => "xiaohongshu"@,
        PlatformType::Kuaishou => "kuaishou"@,
        PlatformType::Bilibili => "bilibili"@,
    });
    assert("bilibili"@ != "kuaishou"@) by { assert("bilibili"@[0] != "kuaishou"@[0]); }
}


/// Reading a platform by name: the variant name reads back as its
/// platform, and for an ASCII text the reading does not depend on letter
/// case (its uppercase form reads the same).
pub proof fn law_platform_from_str(p: PlatformType, s: Seq<char>)
    ensures
        all_ascii(spec_platform_name(p)),
        platform_from_lower(ascii_lowercase(spec_platform_name(p))) == Some(p),
        all_ascii(s) ==> all_ascii(ascii_uppercase(s)) && ascii_lowercase(ascii_uppercase(s)) == ascii_lowercase(s),
{
    law_platform_name_round_trip(p);
    reveal_strlit("Douyin"); reveal_strlit("douyin");
    reveal_strlit("Xiaohongshu"); reveal_strlit("xiaohongshu"); reveal_strlit("xhs");
    reveal_strlit("Kuaishou"); reveal_strlit("kuaishou"); reveal_strlit("ks");
    reveal_strlit("Bilibili"); reveal_strlit("bilibili"); reveal_strlit("bili");
    assert(ascii_lowercase(spec_platform_name(p)) =~= match p {
        PlatformType::Douyin => "douyin"@,
        PlatformType::Xiaohongshu => "xiaohongshu"@,
        PlatformType::Kuaishou => "kuaishou"@,
        PlatformType::Bilibili => "bilibili"@,
    });
    assert("bilibili"@ != "kuaishou"@) by { assert("bilibili"@[0] != "kuaishou"@[0]); }
    if all_ascii(s) {
        let u = ascii_uppercase(s);
        assert forall|i: int| 0 <= i < u.len() implies (u[i] as u32) < 128 by {
            assert(u[i] == ascii_upper(s[i]));
            assert((s[i] as u32) < 128);
        }
        assert forall|i: int| 0 <= i < s.len() implies
            #[trigger] crate::crypto::ascii_lower(ascii_upper(s[i])) == crate::crypto::ascii_lower(s[i]) by {
            let c = s[i];
            if 'a' <= c <= 'z' {
                assert(((c as u32 - 32) as char) as u32 == c as u32 - 32);
            }
        }
        assert(ascii_lowercase(u) =~= ascii_lowercase(s));
    }
}

/// A stored publication status reads back as the status.
pub proof fn law_publication_status_round_trip(st: PublicationStatus)
    ensures
        all_ascii(spec_status_name(st)),
        publication_status_of_lower(ascii_lowercase(spec_status_name(st))) == st,
{
    reveal_strlit("Draft"); reveal_strlit("draft");
    reveal_strlit("Publishing"); reveal_strlit("publishing");
    reveal_strlit("Completed"); reveal_strlit("completed");
    reveal_strlit("Failed"); reveal_strlit("failed");
    let n = spec_status_name(st);
    assert(ascii_lowercase(n) =~= match st {
        PublicationStatus::Draft => "draft"@,
        PublicationStatus::Publishing => "publishing"@,
        PublicationStatus::Completed => "completed"@,
        PublicationStatus::Failed => "failed"@,
    });
}

/// A stored account status reads back as the status.
pub proof fn law_account_status_round_trip(st: AccountStatus)
    ensures
        all_ascii(spec_account_status_name(st)),
        account_status_of_lower(ascii_lowercase(spec_account_status_name(st))) == st,
{
    reveal_strlit("Active"); reveal_strlit("active");
    reveal_strlit("Expired"); reveal_strlit("expired");
    reveal_strlit("Pending"); reveal_strlit("pending");
    let n = spec_account_status_name(st);
    assert(ascii_lowercase(n) =~= match st {
        AccountStatus::Active => "active"@,
        AccountStatus::Expired => "expired"@,
        AccountStatus::Pending => "pending"@,
    });
    if st == AccountStatus::Pending {
        assert("pending"@ != "active"@) by { assert("pending"@[0] != "active"@[0]); }
        assert("pending"@ != "expired"@) by { assert("pending"@[0] != "expired"@[0]); }
    }
}

/// Reads a stored platform name.
pub fn parse_platform(s: &str) -> (r: PlatformType)
    ensures
        r == spec_parse_platform(s@),
        all_ascii(s@) ==> r == platform_of_lower(ascii_lowercase(s@)),
{
    let l = to_lowercase(s);
    let c = chars_of(l.as_str());
    if eq_lit(c.as_slice(), "douyin") {
        PlatformType::Douyin
    } else if eq_lit(c.as_slice(), "xiaohongshu") {
        PlatformType::Xiaohongshu
    } else if eq_lit(c.as_slice(), "kuaishou") {
        PlatformType::Kuaishou
    } else if eq_lit(c.as_slice(), "bilibili") {
        PlatformType::Bilibili
    } else {
        PlatformType::Douyin
    }
}

/// Reads a stored account status.
pub fn parse_status(s: &str) -> (r: AccountStatus)
    ensures
        r == spec_parse_status(s@),
        all_ascii(s@) ==> r == account_status_of_lower(ascii_lowercase(s@)),
{
    let l = to_lowercase(s);
    let c = chars_of(l.as_str());
    if eq_lit(c.as_slice(), "active") {
        AccountStatus::Active
    } else if eq_lit(c.as_slice(), "expired") {
        AccountStatus::Expired
    } else {
        AccountStatus::Pending
    }
}

/// Reads a stored publication status.
pub fn parse_publication_status(s: &str) -> (r: PublicationStatus)
    ensures
        r == spec_parse_publication_status(s@),
        all_ascii(s@) ==> r == publication_status_of_lower(ascii_lowercase(s@)),
{
    let l = to_lowercase(s);
    let c = chars_of(l.as_str());
    if eq_lit(c.as_slice(), "draft") {
        PublicationStatus::Draft
    } else if eq_lit(c.as_slice(), "publishing") {
        PublicationStatus::Publishing
    } else if eq_lit(c.as_slice(), "completed") {
        PublicationStatus::Completed
    } else if eq_lit(c.as_slice(), "failed") {
        PublicationStatus::Failed
    } else {
        PublicationStatus::Draft
    }
}

/// Whether some status, lowercased, is `target`.
pub open spec fn any_status(statuses: Seq<Seq<char>>, target: Seq<char>) -> bool {
    exists|i: int| 0 <= i < statuses.len() && spec_to_lowercase(#[trigger] statuses[i]) == target
}

/// A task's status from its accounts' statuses: Publishing if any account is
/// publishing, else Completed if any completed, else Failed if any failed,
/// else Draft (unknown texts count as nothing).
pub open spec fn spec_task_status(statuses: Seq<Seq<char>>) -> PublicationStatus {
    if any_status(statuses, "publishing"@) {
        PublicationStatus::Publishing
    } else if any_status(statuses, "completed"@) {
        PublicationStatus::Completed
    } else if any_status(statuses, "failed"@) {
        PublicationStatus::Failed
    } else {
        PublicationStatus::Draft
    }
}

/// The task status rules: accounts all in draft leave the task in draft;
/// any account publishing makes it publishing; when every account is done
/// (completed or failed), one completed account makes it completed, and
/// all failed make it failed.
pub proof fn law_task_status_rules(statuses: Seq<Seq<char>>)
    ensures
        (forall|i: int| 0 <= i < statuses.len() ==> spec_to_lowercase(#[trigger] statuses[i]) == "draft"@)
            ==> spec_task_status(statuses) == PublicationStatus::Draft,
        any_status(statuses, "publishing"@) ==> spec_task_status(statuses) == PublicationStatus::Publishing,
        ((forall|i: int| 0 <= i < statuses.len() ==> spec_to_lowercase(#[trigger] statuses[i]) == "completed"@
            || spec_to_lowercase(statuses[i]) == "failed"@) && any_status(statuses, "completed"@))
            ==> spec_task_status(statuses) == PublicationStatus::Completed,
        (statuses.len() > 0 && forall|i: int| 0 <= i < statuses.len() ==> spec_to_lowercase(#[trigger] statuses[i]) == "failed"@)
            ==> spec_task_status(statuses) == PublicationStatus::Failed,
{
    reveal_strlit("draft");
    reveal_strlit("publishing");
    reveal_strlit("completed");
    reveal_strlit("failed");
    assert("draft"@.len() == 5 && "publishing"@.len() == 10 && "completed"@.len() == 9 && "failed"@.len() == 6);
    assert("draft"@ != "publishing"@ && "draft"@ != "completed"@ && "draft"@ != "failed"@);
    assert("completed"@ != "publishing"@) by { assert("completed"@[0] != "publishing"@[0]); }
    assert("failed"@ != "publishing"@ && "failed"@ != "completed"@);
    if forall|i: int| 0 <= i < statuses.len() ==> spec_to_lowercase(#[trigger] statuses[i]) == "draft"@ {
        assert(!any_status(statuses, "publishing"@));
        assert(!any_status(statuses, "completed"@));
        assert(!any_status(statuses, "failed"@));
    }
    if forall|i: int| 0 <= i < statuses.len() ==> spec_to_lowercase(#[trigger] statuses[i]) == "completed"@
        || spec_to_lowercase(statuses[i]) == "failed"@ {
        assert(!any_status(statuses, "publishing"@));
    }
    if statuses.len() > 0 && forall|i: int| 0 <= i < statuses.len() ==> spec_to_lowercase(#[trigger] statuses[i]) == "failed"@ {
        assert(!any_status(statuses, "publishing"@));
        assert(!any_status(statuses, "completed"@));
        assert(spec_to_lowercase(statuses[0]) == "failed"@);
        assert(any_status(statuses, "failed"@));
    }
}

/// How the accounts' statuses (compared without regard to letter case)
/// decide the task's: any account publishing makes it publishing; else any
/// completed account makes it completed, whatever the other accounts'
/// statuses; else any failed account makes it failed; else it is a draft.
pub proof fn law_task_status_precedence(statuses: Seq<Seq<char>>)
    ensures
        (exists|i: int| 0 <= i < statuses.len() && spec_to_lowercase(#[trigger] statuses[i]) == "publishing"@)
            ==> spec_task_status(statuses) == PublicationStatus::Publishing,
        ((forall|i: int| 0 <= i < statuses.len() ==> spec_to_lowercase(#[trigger] statuses[i]) != "publishing"@)
            && (exists|i: int| 0 <= i < statuses.len() && spec_to_lowercase(#[trigger] statuses[i]) == "completed"@))
            ==> spec_task_status(statuses) == PublicationStatus::Completed,
        ((forall|i: int| 0 <= i < statuses.len() ==> spec_to_lowercase(#[trigger] statuses[i]) != "publishing"@
                && spec_to_lowercase(statuses[i]) != "completed"@)
            && (exists|i: int| 0 <= i < statuses.len() && spec_to_lowercase(#[trigger] statuses[i]) == "failed"@))
            ==> spec_task_status(statuses) == PublicationStatus::Failed,
        (forall|i: int| 0 <= i < statuses.len() ==> spec_to_lowercase(#[trigger] statuses[i]) != "publishing"@
                && spec_to_lowercase(statuses[i]) != "completed"@ && spec_to_lowercase(statuses[i]) != "failed"@)
            ==> spec_task_status(statuses) == PublicationStatus::Draft,
{
}

/// Computes a task's status from its accounts' statuses.
pub fn calculate_task_status(account_statuses: &[String]) -> (r: PublicationStatus)
    ensures
        r == spec_task_status(strs(account_statuses@)),
{
    let ghost sv = strs(account_statuses@);
    let mut has_publishing = false;
    let mut has_completed = false;
    let mut has_failed = false;
    let mut i: usize = 0;
    while i < account_statuses.len()
        invariant
            i <= account_statuses.len(),
            sv == strs(account_statuses@),
            has_publishing == exists|j: int| 0 <= j < i && spec_to_lowercase(#[trigger] sv[j]) == "publishing"@,
            has_completed == exists|j: int| 0 <= j < i && spec_to_lowercase(#[trigger] sv[j]) == "completed"@,
            has_failed == exists|j: int| 0 <= j < i && spec_to_lowercase(#[trigger] sv[j]) == "failed"@,
        decreases account_statuses.len() - i,
    {
        let l = to_lowercase(account_statuses[i].as_str());
        let c = chars_of(l.as_str());
        assert(sv[i as int] == account_statuses@[i as int]@);
        if eq_lit(c.as_slice(), "publishing") {
            has_publishing = true;
        } else if eq_lit(c.as_slice(), "completed") {
            has_completed = true;
        } else if eq_lit(c.as_slice(), "failed") {
            has_failed = true;
        }
        proof {
            reveal_strlit("publishing");
            reveal_strlit("completed");
            reveal_strlit("failed");
        }
        i = i + 1;
    }
    if has_publishing {
        PublicationStatus::Publishing
    } else if has_completed {
        PublicationStatus::Completed
    } else if has_failed {
        PublicationStatus::Failed
    } else {
        PublicationStatus::Draft
    }
}

// ---------------------------------------------------------------------------
// Accounts and credentials
// ---------------------------------------------------------------------------

/// A stored account of some platform.
pub struct UserAccount {
    pub id: String,
    pub username: String,
    pub nickname: String,
    pub avatar_url: String,
    pub platform: PlatformType,
    /// The account's parameters, a JSON text.
    pub params: String,
    pub status: AccountStatus,
    pub created_at: String,
}

/// One local storage entry kept for the platform's security SDK.
pub struct LocalDataItem {
    pub key: String,
    pub value: String,
}

/// The credentials read from an account's parameters.
pub struct PlatformCredentials {
    pub cookie: String,
    pub user_agent: String,
    pub third_id: String,
    pub sec_uid: Option<String>,
    pub local_data: Vec<LocalDataItem>,
}

/// The key and value of each item, in order.
pub open spec fn local_view(items: Seq<LocalDataItem>) -> Seq<(Seq<char>, Seq<char>)> {
    items.map_values(|d: LocalDataItem| (d.key@, d.value@))
}

/// The key and value of one `local_data` element, when both are strings.
pub open spec fn local_item(t: JsonTree) -> Option<(Seq<char>, Seq<char>)> {
    match (t.get_str("key"@), t.get_str("value"@)) {
        (Some(k), Some(v)) => Some((k, v)),
        _ => None,
    }
}

/// The usable items of a `local_data` array: each element with a string
/// `key` and a string `value`, in order; the others are skipped.
pub open spec fn local_items(a: Seq<JsonTree>) -> Seq<(Seq<char>, Seq<char>)>
    decreases a.len(),
{
    if a.len() == 0 {
        Seq::empty()
    } else {
        match local_item(a.last()) {
            Some(p) => local_items(a.drop_last()).push(p),
            None => local_items(a.drop_last()),
        }
    }
}

/// The `local_data` items of a parameters object (none when the member is
/// missing or not an array).
pub open spec fn params_local_items(t: JsonTree) -> Seq<(Seq<char>, Seq<char>)> {
    match t.get("local_data"@) {
        Some(x) => match x.as_array() {
            Some(a) => local_items(a),
            None => Seq::empty(),
        },
        None => Seq::empty(),
    }
}

/// The text of an optional string.
pub open spec fn opt_str(o: Option<String>) -> Option<Seq<char>> {
    match o {
        Some(s) => Some(s@),
        None => None,
    }
}

/// Whether `c` holds the credentials that the parameters `t` give: the
/// string members `cookie`, `user_agent` and `third_id` (empty when missing
/// or not strings), the string member `sec_uid` if there is one, and the
/// usable `local_data` items.
pub open spec fn credentials_of(t: JsonTree, c: PlatformCredentials) -> bool {
    &&& c.cookie@ == t.str_or_empty("cookie"@)
    &&& c.user_agent@ == t.str_or_empty("user_agent"@)
    &&& c.third_id@ == t.str_or_empty("third_id"@)
    &&& opt_str(c.sec_uid) == t.get_str("sec_uid"@)
    &&& local_view(c.local_data@) == params_local_items(t)
}

/// The usable items of a `local_data` array.
pub fn local_data_from(a: &Vec<JsonValue>) -> (r: Vec<LocalDataItem>)
    ensures
        local_view(r@) == local_items(trees(a@)),
{
    let ghost ta = trees(a@);
    proof { crate::json::lemma_trees_index(a@); }
    let mut out: Vec<LocalDataItem> = Vec::new();
    let mut i: usize = 0;
    while i < a.len()
        invariant
            i <= a.len(),
            ta == trees(a@),
            ta.len() == a@.len(),
            forall|j: int| 0 <= j < a@.len() ==> #[trigger] ta[j] == a@[j]@,
            local_view(out@) == local_items(ta.subrange(0, i as int)),
        decreases a.len() - i,
    {
        proof {
            let t = ta.subrange(0, i + 1);
            assert(t.drop_last() == ta.subrange(0, i as int));
            assert(t.last() == a@[i as int]@);
        }
        let k = a[i].get_str("key");
        let v = a[i].get_str("value");
        match (k, v) {
            (Some(k), Some(v)) => {
                let ghost before = out@;
                out.push(LocalDataItem { key: k, value: v });
                assert(local_view(out@) == local_view(before).push((k@, v@)));
            },
            _ => {},
        }
        i = i + 1;
    }
    assert(ta.subrange(0, a.len() as int) == ta);
    out
}

/// The credentials that a parsed parameters value holds.
pub fn credentials_from_value(v: &JsonValue) -> (r: PlatformCredentials)
    ensures
        credentials_of(v@, r),
{
    let local_data = match v.get("local_data") {
        Some(x) => match x.as_array() {
            Some(a) => local_data_from(a),
            None => Vec::new(),
        },
        None => Vec::new(),
    };
    assert(local_view(local_data@) == params_local_items(v@));
    let sec_uid = v.get_str("sec_uid");
    assert(opt_str(sec_uid) == v@.get_str("sec_uid"@));
    PlatformCredentials {
        cookie: v.str_or_empty("cookie"),
        user_agent: v.str_or_empty("user_agent"),
        third_id: v.str_or_empty("third_id"),
        sec_uid,
        local_data,
    }
}

impl UserAccount {
    /// Reads the account's credentials from its parameters: an
    /// `InvalidCredentials` error when the parameters are not JSON, else the
    /// credentials they hold.
    pub fn get_credentials(&self) -> (r: Result<PlatformCredentials, PlatformError>)
        ensures
            match spec_parse_json(self.params@) {
                Ok(t) => r matches Ok(c) && credentials_of(t, c),
                Err(e) => r matches Err(PlatformError::InvalidCredentials(m))
                    && m@ == "解析params失败: "@ + e,
            },
    {
        match parse_json(self.params.as_str()) {
            Ok(v) => Ok(credentials_from_value(&v)),
            Err(e) => {
                let m = String::from_str("解析params失败: ").concat(e.as_str());
                Err(PlatformError::InvalidCredentials(m))
            },
        }
    }
}

// ---------------------------------------------------------------------------
// Publications
// ---------------------------------------------------------------------------

/// Interaction counts of a publication.
#[derive(PartialEq, Eq, Structural, Clone, Copy, Debug)]
pub struct PublicationStats {
    pub comments: i64,
    pub likes: i64,
    pub favorites: i64,
    pub shares: i64,
}

impl Default for PublicationStats {
    /// All counts zero.
    fn default() -> (r: Self)
        ensures
            r == (PublicationStats { comments: 0, likes: 0, favorites: 0, shares: 0 }),
    {
        PublicationStats { comments: 0, likes: 0, favorites: 0, shares: 0 }
    }
}

/// A publication of one video on one account.
pub struct PlatformPublication {
    pub id: String,
    pub account_id: String,
    pub platform: PlatformType,
    pub title: String,
    pub description: String,
    pub video_path: String,
    pub cover_path: Option<String>,
    pub status: PublicationStatus,
    pub created_at: String,
    pub published_at: Option<String>,
    pub publish_url: Option<String>,
    pub stats: PublicationStats,
}

/// The outcome of publishing a video.
pub struct PublishResult {
    pub success: bool,
    pub publication_id: String,
    pub item_id: Option<String>,
    pub error_message: Option<String>,
}

/// Errors of the platform operations, each with its detail text.
pub enum PlatformError {
    AuthenticationFailed(String),
    VideoUploadFailed(String),
    PublicationFailed(String),
    AccountNotFound(String),
    InvalidCredentials(String),
    InvalidInput(String),
    NetworkError(String),
    BrowserError(String),
    StorageError(String),
}

/// The message of an error: its kind's caption, a colon and the detail.
pub open spec fn error_text(e: PlatformError) -> Seq<char> {
    match e {
        PlatformError::AuthenticationFailed(m) => "Authentication failed: "@ + m@,
        PlatformError::VideoUploadFailed(m) => "Video upload failed: "@ + m@,
        PlatformError::PublicationFailed(m) => "Publication failed: "@ + m@,
        PlatformError::AccountNotFound(m) => "Account not found: "@ + m@,
        PlatformError::InvalidCredentials(m) => "Invalid credentials: "@ + m@,
        PlatformError::InvalidInput(m) => "Invalid input: "@ + m@,
        PlatformError::NetworkError(m) => "Network error: "@ + m@,
        PlatformError::BrowserError(m) => "Browser error: "@ + m@,
        PlatformError::StorageError(m) => "Storage error: "@ + m@,
    }
}

impl PlatformError {
    /// The error's message.
    pub fn to_string(&self) -> (r: String)
        ensures
            r@ == error_text(*self),
    {
        match self {
            PlatformError::AuthenticationFailed(m) => String::from_str("Authentication failed: ").concat(m.as_str()),
            PlatformError::VideoUploadFailed(m) => String::from_str("Video upload failed: ").concat(m.as_str()),
            PlatformError::PublicationFailed(m) => String::from_str("Publication failed: ").concat(m.as_str()),
            PlatformError::AccountNotFound(m) => String::from_str("Account not found: ").concat(m.as_str()),
            PlatformError::InvalidCredentials(m) => String::from_str("Invalid credentials: ").concat(m.as_str()),
            PlatformError::InvalidInput(m) => String::from_str("Invalid input: ").concat(m.as_str()),
            PlatformError::NetworkError(m) => String::from_str("Network error: ").concat(m.as_str()),
            PlatformError::BrowserError(m) => String::from_str("Browser error: ").concat(m.as_str()),
            PlatformError::StorageError(m) => String::from_str("Storage error: ").concat(m.as_str()),
        }
    }
}

// ---------------------------------------------------------------------------
// Publication tasks: one video, published on several accounts
// ---------------------------------------------------------------------------

/// A publication task as stored in its main table.
pub struct PublicationTask {
    pub id: String,
    pub title: String,
    pub description: Option<String>,
    pub video_path: String,
    pub cover_path: Option<String>,
    pub hashtags: Vec<String>,
    pub status: PublicationStatus,
    pub created_at: String,
    pub published_at: Option<String>,
}

/// One account's part of a publication task.
pub struct PublicationAccountDetail {
    pub id: String,
    pub publication_task_id: String,
    pub account_id: String,
    /// The account's name, kept here for display.
    pub account_name: String,
    pub platform: PlatformType,
    pub status: PublicationStatus,
    pub created_at: String,
    pub published_at: Option<String>,
    pub publish_url: Option<String>,
    pub stats: PublicationStats,
    /// Why publishing failed, if it did.
    pub message: Option<String>,
    /// The published video's id.
    pub item_id: Option<String>,
}

/// A task together with its accounts' details.
pub struct PublicationTaskWithAccounts {
    pub id: String,
    pub title: String,
    pub description: String,
    pub video_path: String,
    pub cover_path: String,
    pub hashtags: Vec<String>,
    pub status: PublicationStatus,
    pub created_at: String,
    pub published_at: String,
    pub accounts: Vec<PublicationAccountDetail>,
}

/// The texts of a sequence of strings.
pub open spec fn strs(v: Seq<String>) -> Seq<Seq<char>> {
    v.map_values(|s: String| s@)
}

/// The text of an optional string, or the empty text.
pub open spec fn or_empty(o: Option<String>) -> Seq<char> {
    match o {
        Some(s) => s@,
        None => Seq::empty(),
    }
}

/// A copy of an optional string.
pub fn copy_opt(o: &Option<String>) -> (r: Option<String>)
    ensures
        r == *o,
{
    match o {
        Some(s) => Some(s.clone()),
        None => None,
    }
}

/// The text of an optional string, or the empty string.
pub fn unwrap_or_empty(o: Option<String>) -> (r: String)
    ensures
        r@ == or_empty(o),
{
    match o {
        Some(s) => s,
        None => String::new(),
    }
}

/// A copy of a list of strings.
pub fn copy_strings(v: &Vec<String>) -> (r: Vec<String>)
    ensures
        r@ == v@,
{
    let mut out: Vec<String> = Vec::new();
    let mut i: usize = 0;
    while i < v.len()
        invariant
            i <= v.len(),
            out@ == v@.subrange(0, i as int),
        decreases v.len() - i,
    {
        out.push(v[i].clone());
        i = i + 1;
        assert(out@ == v@.subrange(0, i as int));
    }
    assert(v@.subrange(0, v.len() as int) == v@);
    out
}

impl PublicationAccountDetail {
    /// A copy of this detail.
    pub fn copy(&self) -> (r: Self)
        ensures
            r == *self,
    {
        PublicationAccountDetail {
            id: self.id.clone(),
            publication_task_id: self.publication_task_id.clone(),
            account_id: self.account_id.clone(),
            account_name: self.account_name.clone(),
            platform: self.platform,
            status: self.status,
            created_at: self.created_at.clone(),
            published_at: copy_opt(&self.published_at),
            publish_url: copy_opt(&self.publish_url),
            stats: self.stats,
            message: copy_opt(&self.message),
            item_id: copy_opt(&self.item_id),
        }
    }
}

/// The strings of a JSON array whose elements are all strings.
pub open spec fn string_array(t: JsonTree) -> Option<Seq<Seq<char>>> {
    match t {
        JsonTree::Array(a) => if forall|i: int| 0 <= i < a.len() ==> (#[trigger] a[i]) is Str {
            Some(a.map_values(|x: JsonTree| x->Str_0))
        } else {
            None
        },
        _ => None,
    }
}

/// The hashtags stored as the JSON text `text`: its strings when it is a
/// JSON array of strings, else none.
pub open spec fn spec_hashtags(text: Seq<char>) -> Seq<Seq<char>> {
    match spec_parse_json(text) {
        Ok(t) => match string_array(t) {
            Some(h) => h,
            None => Seq::empty(),
        },
        Err(_) => Seq::empty(),
    }
}

/// The strings of a JSON array of strings.
pub fn strings_of(v: &JsonValue) -> (r: Option<Vec<String>>)
    ensures
        match r {
            Some(h) => string_array(v@) == Some(strs(h@)),
            None => string_array(v@) is None,
        },
{
    match v {
        JsonValue::Array(a) => {
            let ghost ta = trees(a@);
            proof { crate::json::lemma_trees_index(a@); }
            let mut out: Vec<String> = Vec::new();
            let mut i: usize = 0;
            while i < a.len()
                invariant
                    i <= a.len(),
                    ta == trees(a@),
                    ta.len() == a@.len(),
                    v@ == JsonTree::Array(ta),
                    forall|j: int| 0 <= j < a@.len() ==> #[trigger] ta[j] == a@[j]@,
                    out@.len() == i,
                    forall|j: int| 0 <= j < i ==> (#[trigger] ta[j]) is Str && ta[j]->Str_0 == out@[j]@,
                decreases a.len() - i,
            {
                match &a[i] {
                    JsonValue::Str(s) => {
                        out.push(s.clone());
                    },
                    _ => {
                        assert(!(ta[i as int] is Str));
                        return None;
                    },
                }
                i = i + 1;
            }
            assert(strs(out@) == ta.map_values(|x: JsonTree| x->Str_0));
            Some(out)
        },
        _ => None,
    }
}

/// Reads stored hashtags; text that is not a JSON array of strings gives none.
pub fn parse_hashtags(text: &str) -> (r: Vec<String>)
    ensures
        strs(r@) == spec_hashtags(text@),
{
    match parse_json(text) {
        Ok(v) => match strings_of(&v) {
            Some(h) => h,
            None => {
                assert(strs(Seq::<String>::empty()) == Seq::<Seq<char>>::empty());
                Vec::new()
            },
        },
        Err(_) => {
            assert(strs(Seq::<String>::empty()) == Seq::<Seq<char>>::empty());
            Vec::new()
        },
    }
}

/// An optional text that is absent when empty.
pub open spec fn none_if_empty(s: Seq<char>) -> Option<Seq<char>> {
    if s.len() == 0 { None } else { Some(s) }
}

/// `Some(s)`, or `None` for the empty string.
pub fn non_empty(s: String) -> (r: Option<String>)
    ensures
        opt_str(r) == none_if_empty(s@),
{
    if s.as_str().is_empty() { None } else { Some(s) }
}

/// The details of one task among `accounts`, in their order.
pub open spec fn accounts_of_task(accounts: Seq<PublicationAccountDetail>, task_id: Seq<char>) -> Seq<PublicationAccountDetail> {
    accounts.filter(|a: PublicationAccountDetail| a.publication_task_id@ == task_id)
}

/// Copies of the details that belong to the task `task_id`, in order.
pub fn select_task_accounts(accounts: &Vec<PublicationAccountDetail>, task_id: &String) -> (r: Vec<PublicationAccountDetail>)
    ensures
        r@ == accounts_of_task(accounts@, task_id@),
{
    let mut out: Vec<PublicationAccountDetail> = Vec::new();
    let mut i: usize = 0;
    while i < accounts.len()
        invariant
            i <= accounts.len(),
            out@ == accounts_of_task(accounts@.subrange(0, i as int), task_id@),
        decreases accounts.len() - i,
    {
        proof {
            let t = accounts@.subrange(0, i + 1);
            assert(t.drop_last() == accounts@.subrange(0, i as int));
            assert(t.last() == accounts@[i as int]);
        }
        let ghost pred = |a: PublicationAccountDetail| a.publication_task_id@ == task_id@;
        proof {
            let t = accounts@.subrange(0, i + 1);
            assert(accounts_of_task(t, task_id@) == t.filter(pred));
            assert(accounts_of_task(accounts@.subrange(0, i as int), task_id@) == t.drop_last().filter(pred));
            assert(t.len() > 0);
            reveal(Seq::filter);
            assert(t.filter(pred) == (if pred(t.last()) { t.drop_last().filter(pred).push(t.last()) } else { t.drop_last().filter(pred) }));
        }
        if accounts[i].publication_task_id == *task_id {
            out.push(accounts[i].copy());
        }
        i = i + 1;
    }
    assert(accounts@.subrange(0, accounts.len() as int) == accounts@);
    out
}

/// Whether `r` is the task `t` with the hashtags `h` and the details `accs`:
/// absent texts become empty.
pub open spec fn task_view(r: PublicationTaskWithAccounts, t: PublicationTask, h: Seq<Seq<char>>, accs: Seq<PublicationAccountDetail>) -> bool {
    &&& r.id == t.id
    &&& r.title == t.title
    &&& r.description@ == or_empty(t.description)
    &&& r.video_path == t.video_path
    &&& r.cover_path@ == or_empty(t.cover_path)
    &&& strs(r.hashtags@) == h
    &&& r.status == t.status
    &&& r.created_at == t.created_at
    &&& r.published_at@ == or_empty(t.published_at)
    &&& r.accounts@ == accs
}

/// Joins a task with its details.
pub fn join_task(t: PublicationTask, accounts: Vec<PublicationAccountDetail>) -> (r: PublicationTaskWithAccounts)
    ensures
        task_view(r, t, strs(t.hashtags@), accounts@),
{
    PublicationTaskWithAccounts {
        id: t.id,
        title: t.title,
        description: unwrap_or_empty(t.description),
        video_path: t.video_path,
        cover_path: unwrap_or_empty(t.cover_path),
        hashtags: t.hashtags,
        status: t.status,
        created_at: t.created_at,
        published_at: unwrap_or_empty(t.published_at),
        accounts,
    }
}

/// Groups stored details under their tasks: for each task, in order, the
/// task with the hashtags read again from its stored text and the details
/// that belong to it, in their order.
pub fn group_tasks(tasks: Vec<(PublicationTask, String)>, accounts: &Vec<PublicationAccountDetail>) -> (r: Vec<PublicationTaskWithAccounts>)
    ensures
        r@.len() == tasks@.len(),
        forall|i: int| 0 <= i < tasks@.len() ==> task_view(#[trigger] r@[i], tasks@[i].0,
            spec_hashtags(tasks@[i].1@), accounts_of_task(accounts@, tasks@[i].0.id@)),
{
    let ghost orig = tasks@;
    let mut out: Vec<PublicationTaskWithAccounts> = Vec::new();
    let mut rest = tasks;
    while rest.len() > 0
        invariant
            out@.len() + rest@.len() == orig.len(),
            forall|j: int| 0 <= j < rest@.len() ==> #[trigger] rest@[j] == orig[out@.len() + j],
            forall|i: int| 0 <= i < out@.len() ==> task_view(#[trigger] out@[i], orig[i].0,
                spec_hashtags(orig[i].1@), accounts_of_task(accounts@, orig[i].0.id@)),
        decreases rest.len(),
    {
        let ghost k = out@.len();
        let ghost old_rest = rest@;
        let (t, text) = rest.remove(0);
        assert(orig[k as int] == (t, text));
        assert forall|j: int| 0 <= j < rest@.len() implies #[trigger] rest@[j] == orig[k + 1 + j] by {
            assert(rest@[j] == old_rest[j + 1]);
        }
        let accs = select_task_accounts(accounts, &t.id);
        let hashtags = parse_hashtags(text.as_str());
        let joined = PublicationTaskWithAccounts {
            id: t.id,
            title: t.title,
            description: unwrap_or_empty(t.description),
            video_path: t.video_path,
            cover_path: unwrap_or_empty(t.cover_path),
            hashtags,
            status: t.status,
            created_at: t.created_at,
            published_at: unwrap_or_empty(t.published_at),
            accounts: accs,
        };
        out.push(joined);
    }
    out
}

// ---------------------------------------------------------------------------
// Stored rows
// ---------------------------------------------------------------------------

/// Whether an account of a task is published again when the task is
/// retried: it is still a draft or it failed.
pub fn needs_retry(status: &PublicationStatus) -> (r: bool)
    ensures
        r == (*status is Draft || *status is Failed),
{
    match status {
        PublicationStatus::Draft => true,
        PublicationStatus::Failed => true,
        _ => false,
    }
}

/// An account detail from the columns of its stored row: empty message and
/// item id texts mean none.
pub fn detail_from_row(
    id: String,
    publication_task_id: String,
    account_id: String,
    account_name: String,
    platform: String,
    status: String,
    created_at: String,
    published_at: String,
    publish_url: String,
    stats: PublicationStats,
    message: String,
    item_id: String,
) -> (r: PublicationAccountDetail)
    ensures
        r.id == id,
        r.publication_task_id == publication_task_id,
        r.account_id == account_id,
        r.account_name == account_name,
        r.platform == spec_parse_platform(platform@),
        r.status == spec_parse_publication_status(status@),
        r.created_at == created_at,
        r.published_at == Some(published_at),
        r.publish_url == Some(publish_url),
        r.stats == stats,
        opt_str(r.message) == none_if_empty(message@),
        opt_str(r.item_id) == none_if_empty(item_id@),
{
    PublicationAccountDetail {
        id,
        publication_task_id,
        account_id,
        account_name,
        platform: DatabaseManager::parse_platform(platform),
        status: DatabaseManager::parse_publication_status(status),
        created_at,
        published_at: Some(published_at),
        publish_url: Some(publish_url),
        stats,
        message: non_empty(message),
        item_id: non_empty(item_id),
    }
}

/// A stored count, read as `str::parse::<i64>`, zero when unreadable.
pub open spec fn count_or_zero(s: Seq<char>) -> i64 {
    match spec_parse_i64(s) {
        Some(v) => v,
        None => 0,
    }
}

/// Reads a stored count; unreadable text counts zero.
pub fn parse_count(s: &str) -> (r: i64)
    ensures
        r == count_or_zero(s@),
{
    match parse_i64(s) {
        Some(v) => v,
        None => 0,
    }
}

/// Counts stored as text.
pub fn stats_from_texts(comments: &str, likes: &str, favorites: &str, shares: &str) -> (r: PublicationStats)
    ensures
        r.comments == count_or_zero(comments@),
        r.likes == count_or_zero(likes@),
        r.favorites == count_or_zero(favorites@),
        r.shares == count_or_zero(shares@),
{
    PublicationStats {
        comments: parse_count(comments),
        likes: parse_count(likes),
        favorites: parse_count(favorites),
        shares: parse_count(shares),
    }
}

// ---------------------------------------------------------------------------
// The database location and stored kinds
// ---------------------------------------------------------------------------

/// Where the database lives.
pub struct DatabaseManager {
    /// The directory of the database file.
    pub base_path: String,
}

/// `base` joined with the relative path `name`, as `Path::join` does on
/// Unix: a separator is put between them unless `base` is empty or
/// already ends with one.
pub open spec fn path_join(base: Seq<char>, name: Seq<char>) -> Seq<char> {
    if base.len() == 0 {
        name
    } else if base.last() == '/' {
        base + name
    } else {
        base + seq!['/'] + name
    }
}

impl DatabaseManager {
    /// A manager of the database under `base_path`.
    pub fn new(base_path: String) -> (r: Self)
        ensures
            r.base_path == base_path,
    {
        DatabaseManager { base_path }
    }

    /// The database file: `matrix.db` in the base directory.
    pub fn get_db_path(&self) -> (r: String)
        ensures
            r@ == path_join(self.base_path@, "matrix.db"@),
    {
        let b = chars_of(self.base_path.as_str());
        proof { reveal_strlit("/"); }
        if b.len() == 0 {
            String::from_str("matrix.db")
        } else if b[b.len() - 1] == '/' {
            self.base_path.clone().concat("matrix.db")
        } else {
            self.base_path.clone().concat("/").concat("matrix.db")
        }
    }

    /// Reads a stored platform name (any case); unknown names are Douyin.
    pub fn parse_platform(s: String) -> (r: PlatformType)
        ensures
            r == spec_parse_platform(s@),
    {
        parse_platform(s.as_str())
    }

    /// Reads a stored account status (any case); unknown texts are Pending.
    pub fn parse_status(s: String) -> (r: AccountStatus)
        ensures
            r == spec_parse_status(s@),
    {
        parse_status(s.as_str())
    }

    /// Reads a stored publication status (any case); unknown texts are Draft.
    pub fn parse_publication_status(s: String) -> (r: PublicationStatus)
        ensures
            r == spec_parse_publication_status(s@),
    {
        parse_publication_status(s.as_str())
    }

    /// A task's status from its accounts' stored statuses.
    pub fn calculate_task_status(account_statuses: &[String]) -> (r: PublicationStatus)
        ensures
            r == spec_task_status(strs(account_statuses@)),
    {
        calculate_task_status(account_statuses)
    }
}

// ---------------------------------------------------------------------------
// Platform lookup
// ---------------------------------------------------------------------------

/// Creates and names platforms.
pub struct PlatformFactory;

/// The platform named by a lowercase name, short names included.
pub open spec fn platform_from_lower(l: Seq<char>) -> Option<PlatformType> {
    if l == "douyin"@ {
        Some(PlatformType::Douyin)
    } else if l == "xiaohongshu"@ || l == "xhs"@ {
        Some(PlatformType::Xiaohongshu)
    } else if l == "kuaishou"@ || l == "ks"@ {
        Some(PlatformType::Kuaishou)
    } else if l == "bilibili"@ || l == "bili"@ {
        Some(PlatformType::Bilibili)
    } else {
        None
    }
}

/// The ASCII uppercase form of a character.
pub open spec fn ascii_upper(c: char) -> char {
    if 'a' <= c <= 'z' { ((c as u32) - 32) as char } else { c }
}

/// The ASCII uppercase form of a text.
pub open spec fn ascii_uppercase(s: Seq<char>) -> Seq<char> {
    s.map_values(|c: char| ascii_upper(c))
}

/// The platform named by the lowercase form of `s`, short names included.
pub open spec fn spec_platform_from_str(s: Seq<char>) -> Option<PlatformType> {
    let l = spec_to_lowercase(s);
    if l == "douyin"@ {
        Some(PlatformType::Douyin)
    } else if l == "xiaohongshu"@ || l == "xhs"@ {
        Some(PlatformType::Xiaohongshu)
    } else if l == "kuaishou"@ || l == "ks"@ {
        Some(PlatformType::Kuaishou)
    } else if l == "bilibili"@ || l == "bili"@ {
        Some(PlatformType::Bilibili)
    } else {
        None
    }
}

impl PlatformFactory {
    /// The platform of `platform_type`. Only Douyin is implemented; the
    /// other platforms are not available.
    pub fn create_platform(platform_type: PlatformType) -> (r: crate::platform::DouyinPlatform)
        requires
            platform_type == PlatformType::Douyin,
        ensures
            r.db_manager is None,
    {
        crate::platform::DouyinPlatform::new()
    }

    /// The platforms that can be published to: Douyin only.
    pub fn supported_platforms() -> (r: Vec<PlatformType>)
        ensures
            r@ == seq![PlatformType::Douyin],
    {
        let mut v: Vec<PlatformType> = Vec::new();
        v.push(PlatformType::Douyin);
        v
    }

    /// The platform named by `s` (any case; `xhs`, `ks` and `bili` are short
    /// names), or none.
    pub fn platform_type_from_str(s: &str) -> (r: Option<PlatformType>)
        ensures
            r == spec_platform_from_str(s@),
            all_ascii(s@) ==> r == platform_from_lower(ascii_lowercase(s@)),
    {
        let l = to_lowercase(s);
        let c = chars_of(l.as_str());
        if eq_lit(c.as_slice(), "douyin") {
            Some(PlatformType::Douyin)
        } else if eq_lit(c.as_slice(), "xiaohongshu") || eq_lit(c.as_slice(), "xhs") {
            Some(PlatformType::Xiaohongshu)
        } else if eq_lit(c.as_slice(), "kuaishou") || eq_lit(c.as_slice(), "ks") {
            Some(PlatformType::Kuaishou)
        } else if eq_lit(c.as_slice(), "bilibili") || eq_lit(c.as_slice(), "bili") {
            Some(PlatformType::Bilibili)
        } else {
            None
        }
    }
}

} // verus!
