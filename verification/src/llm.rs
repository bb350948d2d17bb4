//! Talking to an OpenAI-compatible chat model: the system prompt, the
//! endpoint and the authorization header that a request carries, and the
//! handling of the reply up to the JSON text of a plan.
use vstd::prelude::*;
use crate::config::AppConfig;
use crate::text::{
    chars_of, fixed_text, is_white_space_char, push_fixed, trim, trim_back, trim_front, trimmed,
};

verus! {

/// What went wrong on the way to or back from the online model.
#[derive(Debug, Clone, Copy, PartialEq, Eq)]
pub enum LlmError {
    /// Online mode without an API key.
    MissingApiKey,
    /// The API key holds characters that no HTTP header may carry.
    InvalidApiKey,
    /// The reply carries no content.
    EmptyReply,
    /// The reply has no `{`.
    NoJsonStart,
    /// The reply has no `}`.
    NoJsonEnd,
    /// The reply's last `}` does not come after its first `{`.
    InvalidJsonRange,
}

/// The message of each error.
pub open spec fn llm_error_message(e: LlmError) -> Seq<char> {
    match e {
        LlmError::MissingApiKey => "在线模式需要配置 ROBOT_DOG_OPENAI_API_KEY"@,
        LlmError::InvalidApiKey => "API key 含有非法字符"@,
        LlmError::EmptyReply => "大模型没有返回内容"@,
        LlmError::NoJsonStart => "响应里找不到 JSON 起始符号"@,
        LlmError::NoJsonEnd => "响应里找不到 JSON 结束符号"@,
        LlmError::InvalidJsonRange => "响应中的 JSON 区域不合法"@,
    }
}

impl LlmError {
    /// The message shown to the user.
    pub fn message(&self) -> (m: String)
        ensures
            m@ == llm_error_message(*self),
    {
        match self {
            LlmError::MissingApiKey => String::from_str("在线模式需要配置 ROBOT_DOG_OPENAI_API_KEY"),
            LlmError::InvalidApiKey => String::from_str("API key 含有非法字符"),
            LlmError::EmptyReply => String::from_str("大模型没有返回内容"),
            LlmError::NoJsonStart => String::from_str("响应里找不到 JSON 起始符号"),
            LlmError::NoJsonEnd => String::from_str("响应里找不到 JSON 结束符号"),
            LlmError::InvalidJsonRange => String::from_str("响应中的 JSON 区域不合法"),
        }
    }
}

// ---------------------------------------------------------------------------
// The request
// ---------------------------------------------------------------------------

/// The system prompt up to the robot's name.
pub open spec fn system_prompt_head() -> Seq<char> {
    "\n你是一个四足机器狗控制计划生成器。目标是把用户自然语言转换成严格 JSON。\n\n约束：\n- 只能返回 JSON，不能返回 Markdown、注释、解释文字。\n- 不要输出空对象。\n- 动作必须来自允许集合。\n- 速度必须保守。\n- 机器人名称是 `"@
}

/// The system prompt from the robot's name to the linear speed limit: the
/// allowed JSON shape of a plan.
pub open spec fn system_prompt_schema() -> Seq<char> {
    "`。\n\n允许的 JSON 结构：\n{\n  \"summary\": \"一句中文摘要\",\n  \"actions\": [\n    {\"type\":\"stand\"},\n    {\"type\":\"sit\"},\n    {\"type\":\"lie_down\"},\n    {\"type\":\"stop\"},\n    {\"type\":\"wave\"},\n    {\"type\":\"dance\"},\n    {\"type\":\"camera_scan\"},\n    {\"type\":\"speak\",\"text\":\"要播报的话\"},\n    {\"type\":\"move\",\"linear_x\":0.1,\"linear_y\":0.0,\"angular_z\":0.0,\"duration_ms\":1500},\n    {\"type\":\"turn\",\"degrees\":30,\"duration_ms\":1200}\n  ],\n  \"safety_notes\": [\"需要人工确认的注意事项\"]\n}\n\n安全规则：\n- 线速度绝对值不要超过 "@
}

/// The system prompt between the two speed limits.
pub open spec fn system_prompt_middle() -> Seq<char> {
    "。\n- 角速度绝对值不要超过 "@
}

/// The system prompt after the angular speed limit.
pub open spec fn system_prompt_tail() -> Seq<char> {
    "。\n- 不确定时优先输出 `stop` 或 `speak`。\n- 如果用户请求危险动作，转换成安全近似动作。\n"@
}

/// The system prompt for a robot and its speed limits (in thousandths,
/// shown with two decimals).
pub open spec fn system_prompt(robot_name: Seq<char>, max_linear: int, max_angular: int) -> Seq<
    char,
> {
    system_prompt_head() + robot_name + system_prompt_schema() + fixed_text(max_linear, 2)
        + system_prompt_middle() + fixed_text(max_angular, 2) + system_prompt_tail()
}

/// The system prompt that tells the model the plan format and the safety
/// rules for the configured robot.
pub fn build_system_prompt(config: &AppConfig) -> (p: String)
    ensures
        p@ == system_prompt(
            config.robot_name@,
            config.max_linear_speed as int,
            config.max_angular_speed as int,
        ),
{
    let mut p = String::from_str(
        "\n你是一个四足机器狗控制计划生成器。目标是把用户自然语言转换成严格 JSON。\n\n约束：\n- 只能返回 JSON，不能返回 Markdown、注释、解释文字。\n- 不要输出空对象。\n- 动作必须来自允许集合。\n- 速度必须保守。\n- 机器人名称是 `",
    );
    p.append(config.robot_name.as_str());
    p.append(
        "`。\n\n允许的 JSON 结构：\n{\n  \"summary\": \"一句中文摘要\",\n  \"actions\": [\n    {\"type\":\"stand\"},\n    {\"type\":\"sit\"},\n    {\"type\":\"lie_down\"},\n    {\"type\":\"stop\"},\n    {\"type\":\"wave\"},\n    {\"type\":\"dance\"},\n    {\"type\":\"camera_scan\"},\n    {\"type\":\"speak\",\"text\":\"要播报的话\"},\n    {\"type\":\"move\",\"linear_x\":0.1,\"linear_y\":0.0,\"angular_z\":0.0,\"duration_ms\":1500},\n    {\"type\":\"turn\",\"degrees\":30,\"duration_ms\":1200}\n  ],\n  \"safety_notes\": [\"需要人工确认的注意事项\"]\n}\n\n安全规则：\n- 线速度绝对值不要超过 ",
    );
    push_fixed(&mut p, config.max_linear_speed as i64, 2);
    p.append("。\n- 角速度绝对值不要超过 ");
    push_fixed(&mut p, config.max_angular_speed as i64, 2);
    p.append("。\n- 不确定时优先输出 `stop` 或 `speak`。\n- 如果用户请求危险动作，转换成安全近似动作。\n");
    p
}

/// `s` without its trailing `/` characters.
pub open spec fn without_trailing_slashes(s: Seq<char>) -> Seq<char>
    decreases s.len(),
{
    if s.len() > 0 && s.last() == '/' {
        without_trailing_slashes(s.drop_last())
    } else {
        s
    }
}

proof fn lemma_without_trailing_slashes_at(s: Seq<char>, hi: int)
    requires
        0 <= hi <= s.len(),
        forall|j: int| hi <= j < s.len() ==> #[trigger] s[j] == '/',
        hi == 0 || s[hi - 1] != '/',
    ensures
        without_trailing_slashes(s) == s.subrange(0, hi),
    decreases s.len() - hi,
{
    if hi == s.len() {
        assert(s.subrange(0, hi) =~= s);
    } else {
        let t = s.drop_last();
        assert forall|j: int| hi <= j < t.len() implies #[trigger] t[j] == '/' by {
            assert(t[j] == s[j]);
        }
        lemma_without_trailing_slashes_at(t, hi);
        assert(t.subrange(0, hi) =~= s.subrange(0, hi));
    }
}

/// The chat-completions endpoint under an API base URL (trailing slashes of
/// the base are dropped).
pub fn chat_completions_url(base: &str) -> (url: String)
    ensures
        url@ == without_trailing_slashes(base@) + "/v1/chat/completions"@,
{
    let v = chars_of(base);
    let mut hi: usize = v.len();
    while hi > 0 && v[hi - 1] == '/'
        invariant
            hi <= v.len(),
            forall|j: int| hi <= j < v.len() ==> #[trigger] v@[j] == '/',
        decreases hi,
    {
        hi = hi - 1;
    }
    proof {
        lemma_without_trailing_slashes_at(v@, hi as int);
    }
    let mut url = base.substring_char(0, hi).to_owned();
    url.append("/v1/chat/completions");
    url
}

/// A character that an HTTP header value may carry: a tab, or anything from
/// the space up except DEL (characters beyond ASCII are encoded as bytes
/// from 0x80 up, all of which are allowed).
pub open spec fn header_char_allowed(c: char) -> bool {
    c == '\t' || (c as u32 >= 32 && c as u32 != 127)
}

/// Whether `value` can be an HTTP header value.
pub open spec fn header_value_allowed(value: Seq<char>) -> bool {
    forall|i: int| 0 <= i < value.len() ==> header_char_allowed(#[trigger] value[i])
}

/// `reqwest::header::HeaderValue::from_str` (the `http` crate's): it
/// accepts a string exactly when every byte of its UTF-8 encoding is a tab
/// or lies in 32..=255 other than 127, which is what `header_value_allowed`
/// states of the characters.
#[verifier::external_body]
fn header_value_accepts(value: &str) -> (ok: bool)
    ensures
        ok == header_value_allowed(value@),
{
    reqwest::header::HeaderValue::from_str(value).is_ok()
}

/// The `Authorization` header value of a request: `Bearer ` and the API
/// key; refused without a key, or when the value cannot be a header.
pub fn authorization_value(config: &AppConfig) -> (r: Result<String, LlmError>)
    ensures
        match config.api_key {
            None => r == Err::<String, LlmError>(LlmError::MissingApiKey),
            Some(k) => {
                let v = "Bearer "@ + k@;
                match r {
                    Ok(s) => header_value_allowed(v) && s@ == v,
                    Err(e) => !header_value_allowed(v) && e == LlmError::InvalidApiKey,
                }
            },
        },
{
    match &config.api_key {
        None => Err(LlmError::MissingApiKey),
        Some(key) => {
            let mut bearer = String::from_str("Bearer ");
            bearer.append(key.as_str());
            if header_value_accepts(bearer.as_str()) {
                Ok(bearer)
            } else {
                Err(LlmError::InvalidApiKey)
            }
        },
    }
}

// ---------------------------------------------------------------------------
// The reply
// ---------------------------------------------------------------------------

/// The content of the first choice of a reply, given the contents of all
/// its choices in order; refused when there is no choice or the first one
/// carries no content.
pub fn first_choice_content(contents: &Vec<Option<String>>) -> (r: Result<String, LlmError>)
    ensures
        match r {
            Ok(c) => contents@.len() > 0 && contents@[0] is Some && c@ == contents@[0]->0@,
            Err(e) => (contents@.len() == 0 || contents@[0] is None) && e == LlmError::EmptyReply,
        },
{
    if contents.len() == 0 {
        return Err(LlmError::EmptyReply);
    }
    match &contents[0] {
        Some(c) => Ok(c.clone()),
        None => Err(LlmError::EmptyReply),
    }
}

/// Position of the first `c` in `s`, or -1 when there is none.
pub open spec fn first_index_of(s: Seq<char>, c: char) -> int
    decreases s.len(),
{
    if s.len() == 0 {
        -1
    } else if s[0] == c {
        0
    } else {
        let r = first_index_of(s.drop_first(), c);
        if r < 0 {
            -1
        } else {
            r + 1
        }
    }
}

/// Position of the last `c` in `s`, or -1 when there is none.
pub open spec fn last_index_of(s: Seq<char>, c: char) -> int
    decreases s.len(),
{
    if s.len() == 0 {
        -1
    } else if s.last() == c {
        s.len() - 1
    } else {
        last_index_of(s.drop_last(), c)
    }
}

proof fn lemma_first_index_of(s: Seq<char>, c: char, i: int)
    requires
        0 <= i <= s.len(),
        forall|j: int| 0 <= j < i ==> #[trigger] s[j] != c,
        i < s.len() ==> s[i] == c,
    ensures
        first_index_of(s, c) == if i < s.len() {
            i
        } else {
            -1
        },
    decreases i,
{
    if i > 0 {
        let t = s.drop_first();
        assert forall|j: int| 0 <= j < i - 1 implies #[trigger] t[j] != c by {
            assert(t[j] == s[j + 1]);
        }
        if i < s.len() {
            assert(t[i - 1] == s[i]);
        }
        lemma_first_index_of(t, c, i - 1);
        assert(s[0] != c);
    }
}

proof fn lemma_last_index_of(s: Seq<char>, c: char, k: int)
    requires
        0 <= k <= s.len(),
        forall|j: int| k <= j < s.len() ==> #[trigger] s[j] != c,
        k > 0 ==> s[k - 1] == c,
    ensures
        last_index_of(s, c) == k - 1,
    decreases s.len() - k,
{
    if k < s.len() {
        let t = s.drop_last();
        assert forall|j: int| k <= j < t.len() implies #[trigger] t[j] != c by {
            assert(t[j] == s[j]);
        }
        if k > 0 {
            assert(t[k - 1] == s[k - 1]);
        }
        lemma_last_index_of(t, c, k);
    }
}

/// The JSON text inside a reply: the trimmed reply from its first `{` to
/// its last `}`, both included.
pub open spec fn json_payload(content: Seq<char>) -> Result<Seq<char>, LlmError> {
    let t = trimmed(content);
    let start = first_index_of(t, '{');
    let end = last_index_of(t, '}');
    if start < 0 {
        Err(LlmError::NoJsonStart)
    } else if end < 0 {
        Err(LlmError::NoJsonEnd)
    } else if end <= start {
        Err(LlmError::InvalidJsonRange)
    } else {
        Ok(t.subrange(start, end + 1))
    }
}

/// The JSON text inside a model reply, such as one wrapped in a Markdown
/// code fence (see `json_payload`).
pub fn extract_json_payload(content: &str) -> (r: Result<&str, LlmError>)
    ensures
        match r {
            Ok(p) => json_payload(content@) == Ok::<Seq<char>, LlmError>(p@),
            Err(e) => json_payload(content@) == Err::<Seq<char>, LlmError>(e),
        },
{
    let t = trim(content);
    let v = chars_of(t);
    let n = v.len();
    let mut start: usize = 0;
    while start < n && v[start] != '{'
        invariant
            start <= n,
            n == v.len(),
            forall|j: int| 0 <= j < start ==> #[trigger] v@[j] != '{',
        decreases n - start,
    {
        start = start + 1;
    }
    let mut k: usize = n;
    while k > 0 && v[k - 1] != '}'
        invariant
            k <= n,
            n == v.len(),
            forall|j: int| k <= j < n ==> #[trigger] v@[j] != '}',
        decreases k,
    {
        k = k - 1;
    }
    proof {
        lemma_first_index_of(v@, '{', start as int);
        lemma_last_index_of(v@, '}', k as int);
    }
    if n > 0 && v[0] == '{' && v[n - 1] == '}' {
        // the whole trimmed reply is the JSON text
        assert(start == 0);
        assert(k == n);
        assert(v@.subrange(0, n as int) =~= v@);
        return Ok(t);
    }
    if start == n {
        return Err(LlmError::NoJsonStart);
    }
    if k == 0 {
        return Err(LlmError::NoJsonEnd);
    }
    if k - 1 <= start {
        return Err(LlmError::InvalidJsonRange);
    }
    Ok(t.substring_char(start, k))
}

proof fn lemma_first_index_props(s: Seq<char>, c: char)
    ensures
        -1 <= first_index_of(s, c) < s.len(),
        first_index_of(s, c) >= 0 ==> s[first_index_of(s, c)] == c,
    decreases s.len(),
{
    if s.len() > 0 && s[0] != c {
        lemma_first_index_props(s.drop_first(), c);
    }
}

proof fn lemma_last_index_props(s: Seq<char>, c: char)
    ensures
        -1 <= last_index_of(s, c) < s.len(),
        last_index_of(s, c) >= 0 ==> s[last_index_of(s, c)] == c,
    decreases s.len(),
{
    if s.len() > 0 && s.last() != c {
        lemma_last_index_props(s.drop_last(), c);
    }
}

/// The JSON text found in a reply starts with `{`, ends with `}`, and is
/// found again, unchanged, when it is itself searched for JSON text.
pub proof fn lemma_json_payload_stable(content: Seq<char>)
    ensures
        json_payload(content) matches Ok(p) ==> {
            &&& p.len() >= 2
            &&& p[0] == '{'
            &&& p.last() == '}'
            &&& json_payload(p) == Ok::<Seq<char>, LlmError>(p)
        },
{
    let t = trimmed(content);
    lemma_first_index_props(t, '{');
    lemma_last_index_props(t, '}');
    if let Ok(p) = json_payload(content) {
        let start = first_index_of(t, '{');
        let end = last_index_of(t, '}');
        assert(p[0] == t[start]);
        assert(p.last() == t[end]);
        assert(!is_white_space_char('{'));
        assert(!is_white_space_char('}'));
        assert(trim_front(p) == p);
        assert(trim_back(p) == p);
        assert(first_index_of(p, '{') == 0);
        assert(last_index_of(p, '}') == p.len() - 1);
        assert(p.subrange(0, p.len() as int) =~= p);
    }
}

proof fn lemma_first_index_full(s: Seq<char>, c: char)
    ensures
        first_index_of(s, c) < 0 <==> (forall|j: int| 0 <= j < s.len() ==> #[trigger] s[j] != c),
        first_index_of(s, c) >= 0 ==> forall|j: int|
            0 <= j < first_index_of(s, c) ==> #[trigger] s[j] != c,
    decreases s.len(),
{
    lemma_first_index_props(s, c);
    if s.len() > 0 && s[0] != c {
        let t = s.drop_first();
        lemma_first_index_full(t, c);
        assert forall|j: int| 1 <= j < s.len() implies #[trigger] s[j] == t[j - 1] by {}
        if first_index_of(s, c) < 0 {
            assert forall|j: int| 0 <= j < s.len() implies #[trigger] s[j] != c by {
                if j > 0 {
                    assert(s[j] == t[j - 1]);
                }
            }
        }
        if exists|j: int| 0 <= j < s.len() && #[trigger] s[j] == c {
            let j = choose|j: int| 0 <= j < s.len() && #[trigger] s[j] == c;
            assert(t[j - 1] == c);
        }
        if first_index_of(s, c) >= 0 {
            assert forall|j: int| 0 <= j < first_index_of(s, c) implies #[trigger] s[j] != c by {
                if j > 0 {
                    assert(s[j] == t[j - 1]);
                }
            }
        }
    }
}

proof fn lemma_last_index_full(s: Seq<char>, c: char)
    ensures
        last_index_of(s, c) < 0 <==> (forall|j: int| 0 <= j < s.len() ==> #[trigger] s[j] != c),
        last_index_of(s, c) >= 0 ==> forall|j: int|
            last_index_of(s, c) < j < s.len() ==> #[trigger] s[j] != c,
    decreases s.len(),
{
    lemma_last_index_props(s, c);
    if s.len() > 0 && s.last() != c {
        let t = s.drop_last();
        lemma_last_index_full(t, c);
        if last_index_of(s, c) < 0 {
            assert forall|j: int| 0 <= j < s.len() implies #[trigger] s[j] != c by {
                if j < t.len() {
                    assert(s[j] == t[j]);
                }
            }
        }
        if exists|j: int| 0 <= j < s.len() && #[trigger] s[j] == c {
            let j = choose|j: int| 0 <= j < s.len() && #[trigger] s[j] == c;
            assert(t[j] == c);
        }
        if last_index_of(s, c) >= 0 {
            assert forall|j: int| last_index_of(s, c) < j < s.len() implies #[trigger] s[j] != c by {
                if j < t.len() {
                    assert(s[j] == t[j]);
                }
            }
        }
    }
}

/// Where the JSON text of a reply comes from: the trimmed reply without a
/// `{` has none; with a `{` but without a `}` it has none either; when the
/// last `}` does not come after the first `{` the range is refused;
/// otherwise the JSON text is the part of the trimmed reply that runs from
/// its first `{` to its last `}`: nothing before it holds a `{`, nothing
/// after it a `}`.
pub proof fn lemma_json_payload_bounds(content: Seq<char>)
    ensures
        ({
            let t = trimmed(content);
            let opens = exists|j: int| 0 <= j < t.len() && #[trigger] t[j] == '{';
            let closes = exists|j: int| 0 <= j < t.len() && #[trigger] t[j] == '}';
            &&& json_payload(content) == Err::<Seq<char>, LlmError>(LlmError::NoJsonStart)
                <==> !opens
            &&& json_payload(content) == Err::<Seq<char>, LlmError>(LlmError::NoJsonEnd) <==> opens
                && !closes
            &&& json_payload(content) matches Ok(p) ==> exists|i: int|
                {
                    &&& 0 <= i && i + p.len() <= t.len()
                    &&& #[trigger] t.subrange(i, i + p.len()) == p
                    &&& forall|j: int| 0 <= j < i ==> #[trigger] t[j] != '{'
                    &&& forall|j: int| i + p.len() <= j < t.len() ==> #[trigger] t[j] != '}'
                }
        }),
{
    let t = trimmed(content);
    lemma_first_index_full(t, '{');
    lemma_last_index_full(t, '}');
    lemma_first_index_props(t, '{');
    lemma_last_index_props(t, '}');
    if let Ok(p) = json_payload(content) {
        let start = first_index_of(t, '{');
        let end = last_index_of(t, '}');
        assert(p.len() == end + 1 - start);
        assert(t.subrange(start, start + p.len()) == p);
    }
}

/// The endpoint keeps the base URL up to its trailing slashes: what is kept
/// is a prefix of the base that does not end in `/` (unless nothing is
/// kept), and everything dropped after it is `/`.
pub proof fn lemma_url_base_kept(base: Seq<char>)
    ensures
        ({
            let w = without_trailing_slashes(base);
            &&& w.len() <= base.len()
            &&& w == base.subrange(0, w.len() as int)
            &&& w.len() > 0 ==> w.last() != '/'
            &&& forall|j: int| w.len() <= j < base.len() ==> #[trigger] base[j] == '/'
        }),
    decreases base.len(),
{
    if base.len() > 0 && base.last() == '/' {
        let t = base.drop_last();
        lemma_url_base_kept(t);
        let w = without_trailing_slashes(base);
        assert(w == without_trailing_slashes(t));
        assert(w =~= base.subrange(0, w.len() as int));
        assert forall|j: int| w.len() <= j < base.len() implies #[trigger] base[j] == '/' by {
            if j < t.len() {
                assert(base[j] == t[j]);
            }
        }
    } else {
        assert(base.subrange(0, base.len() as int) =~= base);
    }
}

} // verus!
