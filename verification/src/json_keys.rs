//! The member names of a JSON object text, in the order they are written.
//!
//! serde_json's `Value` keeps one value per member name, so a name written
//! twice cannot be seen in it.  The token record rejects a repeated field, so
//! the names are read from the text itself: a scan that follows the object's
//! top level (strings, nesting, separators) and collects each member name as
//! written, escapes included.  It is meant for a text that serde_json has
//! already read as an object.

use vstd::prelude::*;
use vstd::string::StrSliceExecFns;

verus! {

/// Where the scan of an object text stands.
#[derive(Clone, Copy, PartialEq, Eq, Structural, Debug)]
pub enum ScanMode {
    /// Before the opening brace.
    Start,
    /// After the opening brace or a comma: a member name comes next.
    ExpectKey,
    /// Inside a member name.
    InKey,
    /// After a member name: the colon comes next.
    AfterKey,
    /// Inside a member value.
    InValue,
    /// After the closing brace, or at something an object text cannot hold.
    Stop,
}

/// The state of the scan: the mode, the nesting depth and string state
/// inside a value, the member name being read, and the names read so far.
pub struct KeyScan {
    pub mode: ScanMode,
    pub depth: int,
    pub in_str: bool,
    pub escaped: bool,
    pub cur: Seq<char>,
    pub keys: Seq<Seq<char>>,
}

/// The state before the first character.
pub open spec fn scan_start() -> KeyScan {
    KeyScan {
        mode: ScanMode::Start,
        depth: 0,
        in_str: false,
        escaped: false,
        cur: Seq::empty(),
        keys: Seq::empty(),
    }
}

/// JSON's insignificant whitespace.
pub open spec fn is_json_ws(c: char) -> bool {
    c == ' ' || c == '\t' || c == '\n' || c == '\r'
}

/// The state with another mode.
pub open spec fn with_mode(s: KeyScan, mode: ScanMode) -> KeyScan {
    KeyScan { mode, depth: s.depth, in_str: s.in_str, escaped: s.escaped, cur: s.cur, keys: s.keys }
}

/// The state with another string state inside a value.
pub open spec fn with_str(s: KeyScan, in_str: bool, escaped: bool) -> KeyScan {
    KeyScan { mode: s.mode, depth: s.depth, in_str, escaped, cur: s.cur, keys: s.keys }
}

/// The state with another nesting depth.
pub open spec fn with_depth(s: KeyScan, depth: int) -> KeyScan {
    KeyScan { mode: s.mode, depth, in_str: s.in_str, escaped: s.escaped, cur: s.cur, keys: s.keys }
}

/// The state with another name being read.
pub open spec fn with_cur(s: KeyScan, cur: Seq<char>, escaped: bool) -> KeyScan {
    KeyScan { mode: s.mode, depth: s.depth, in_str: s.in_str, escaped, cur, keys: s.keys }
}

/// One character of the scan.
pub open spec fn scan_step(s: KeyScan, c: char) -> KeyScan {
    match s.mode {
        ScanMode::Start => if c == '{' {
            with_mode(s, ScanMode::ExpectKey)
        } else if is_json_ws(c) {
            s
        } else {
            with_mode(s, ScanMode::Stop)
        },
        ScanMode::ExpectKey => if c == '"' {
            with_cur(with_mode(s, ScanMode::InKey), Seq::empty(), false)
        } else if is_json_ws(c) {
            s
        } else {
            with_mode(s, ScanMode::Stop)
        },
        ScanMode::InKey => if s.escaped {
            with_cur(s, s.cur.push(c), false)
        } else if c == '\\' {
            with_cur(s, s.cur.push(c), true)
        } else if c == '"' {
            KeyScan {
                mode: ScanMode::AfterKey,
                depth: s.depth,
                in_str: s.in_str,
                escaped: false,
                cur: s.cur,
                keys: s.keys.push(s.cur),
            }
        } else {
            with_cur(s, s.cur.push(c), false)
        },
        ScanMode::AfterKey => if c == ':' {
            with_str(with_depth(with_mode(s, ScanMode::InValue), 0), false, false)
        } else if is_json_ws(c) {
            s
        } else {
            with_mode(s, ScanMode::Stop)
        },
        ScanMode::InValue => if s.in_str {
            if s.escaped {
                with_str(s, true, false)
            } else if c == '\\' {
                with_str(s, true, true)
            } else if c == '"' {
                with_str(s, false, false)
            } else {
                s
            }
        } else if c == '"' {
            with_str(s, true, false)
        } else if c == '{' || c == '[' {
            with_depth(s, s.depth + 1)
        } else if c == '}' || c == ']' {
            if s.depth == 0 {
                with_mode(s, ScanMode::Stop)
            } else {
                with_depth(s, s.depth - 1)
            }
        } else if c == ',' && s.depth == 0 {
            with_mode(s, ScanMode::ExpectKey)
        } else {
            s
        },
        ScanMode::Stop => s,
    }
}

/// The state after scanning `cs` from `s`.
pub open spec fn scan_run(s: KeyScan, cs: Seq<char>) -> KeyScan
    decreases cs.len(),
{
    if cs.len() == 0 {
        s
    } else {
        scan_step(scan_run(s, cs.drop_last()), cs.last())
    }
}

/// The member names of the object text `text`, as written.
pub open spec fn object_keys(text: Seq<char>) -> Seq<Seq<char>> {
    scan_run(scan_start(), text).keys
}

/// Scanning `a` then `b` is scanning `a + b`.
pub proof fn lemma_scan_run_append(s: KeyScan, a: Seq<char>, b: Seq<char>)
    ensures
        scan_run(s, a + b) == scan_run(scan_run(s, a), b),
    decreases b.len(),
{
    if b.len() == 0 {
        assert(a + b =~= a);
    } else {
        lemma_scan_run_append(s, a, b.drop_last());
        assert((a + b).drop_last() =~= a + b.drop_last());
        assert((a + b).last() == b.last());
    }
}

/// The member names of the object text `text`, as written.
pub fn object_keys_of(text: &str) -> (r: Vec<String>)
    ensures
        r@.len() == object_keys(text@).len(),
        forall|i: int| 0 <= i < r@.len() ==> #[trigger] r@[i]@ == object_keys(text@)[i],
{
    let ghost all = text@;
    let mut mode = ScanMode::Start;
    let mut depth: usize = 0;
    let mut in_str = false;
    let mut escaped = false;
    let mut key_start: usize = 0;
    let mut spans: Vec<(usize, usize)> = Vec::new();
    let mut pos: usize = 0;
    let ghost mut st = scan_start();
    let len = text.unicode_len();
    for ch in it: text.chars()
        invariant
            it.seq() == all,
            all == text@,
            len == all.len(),
            pos == it.index(),
            st == scan_run(scan_start(), all.take(pos as int)),
            st.mode == mode,
            st.depth == depth,
            depth <= pos,
            st.in_str == in_str,
            st.escaped == escaped,
            st.mode == ScanMode::InKey ==> key_start <= pos && st.cur == all.subrange(key_start as int, pos as int),
            spans@.len() == st.keys.len(),
            forall|k: int|
                0 <= k < spans@.len() ==> {
                    let p = #[trigger] spans@[k];
                    &&& p.0 <= p.1 <= pos
                    &&& st.keys[k] == all.subrange(p.0 as int, p.1 as int)
                },
    {
        proof {
            assert(all.take(pos + 1).drop_last() =~= all.take(pos as int));
            assert(all.take(pos + 1).last() == ch);
        }
        let ghost next = scan_step(st, ch);
        match mode {
            ScanMode::Start => {
                if ch == '{' {
                    mode = ScanMode::ExpectKey;
                } else if !(ch == ' ' || ch == '\t' || ch == '\n' || ch == '\r') {
                    mode = ScanMode::Stop;
                }
            },
            ScanMode::ExpectKey => {
                if ch == '"' {
                    mode = ScanMode::InKey;
                    escaped = false;
                    key_start = pos + 1;
                } else if !(ch == ' ' || ch == '\t' || ch == '\n' || ch == '\r') {
                    mode = ScanMode::Stop;
                }
            },
            ScanMode::InKey => {
                if escaped {
                    escaped = false;
                } else if ch == '\\' {
                    escaped = true;
                } else if ch == '"' {
                    spans.push((key_start, pos));
                    mode = ScanMode::AfterKey;
                }
            },
            ScanMode::AfterKey => {
                if ch == ':' {
                    mode = ScanMode::InValue;
                    depth = 0;
                    in_str = false;
                    escaped = false;
                } else if !(ch == ' ' || ch == '\t' || ch == '\n' || ch == '\r') {
                    mode = ScanMode::Stop;
                }
            },
            ScanMode::InValue => {
                if in_str {
                    if escaped {
                        escaped = false;
                    } else if ch == '\\' {
                        escaped = true;
                    } else if ch == '"' {
                        in_str = false;
                    }
                } else if ch == '"' {
                    in_str = true;
                    escaped = false;
                } else if ch == '{' || ch == '[' {
                    depth = depth + 1;
                } else if ch == '}' || ch == ']' {
                    if depth == 0 {
                        mode = ScanMode::Stop;
                    } else {
                        depth = depth - 1;
                    }
                } else if ch == ',' && depth == 0 {
                    mode = ScanMode::ExpectKey;
                }
            },
            ScanMode::Stop => {},
        }
        proof {
            st = next;
            if st.mode == ScanMode::InKey {
                assert(st.cur =~= all.subrange(key_start as int, pos + 1));
            }
        }
        pos = pos + 1;
    }
    proof {
        assert(pos == all.len());
        assert(all.take(pos as int) =~= all);
    }
    let mut keys: Vec<String> = Vec::new();
    let n = spans.len();
    let mut k: usize = 0;
    while k < n
        invariant
            n == spans@.len(),
            n == st.keys.len(),
            st.keys == object_keys(all),
            all == text@,
            k <= n,
            keys@.len() == k,
            forall|j: int| 0 <= j < k ==> #[trigger] keys@[j]@ == st.keys[j],
            forall|j: int|
                0 <= j < spans@.len() ==> {
                    let p = #[trigger] spans@[j];
                    &&& p.0 <= p.1 <= all.len()
                    &&& st.keys[j] == all.subrange(p.0 as int, p.1 as int)
                },
        decreases n - k,
    {
        let (a, b) = spans[k];
        let key = text.substring_char(a, b).to_owned();
        keys.push(key);
        k = k + 1;
    }
    keys
}

/// What `serde_json::from_str::<String>` makes of `text`, a JSON string
/// literal: the string it denotes, or `None` when it is not one.
pub uninterp spec fn spec_json_string(text: Seq<char>) -> Option<Seq<char>>;

/// `serde_json::from_str::<String>`: the string a JSON string literal denotes.
/// Trusted: the result is a function of the text.
#[verifier::external_body]
fn parse_json_string(text: &str) -> (r: Option<String>)
    ensures
        r matches Some(s) ==> spec_json_string(text@) == Some(s@),
        r is None ==> spec_json_string(text@) is None,
{
    serde_json::from_str::<String>(text).ok()
}

/// The name a member name denotes: as written when it holds no escape,
/// otherwise as serde_json reads the quoted name.
pub open spec fn key_value(raw: Seq<char>) -> Option<Seq<char>> {
    if raw.contains('\\') {
        spec_json_string("\""@ + raw + "\""@)
    } else {
        Some(raw)
    }
}

/// The names the member names of `text` denote, in order.
pub open spec fn key_values(text: Seq<char>) -> Seq<Option<Seq<char>>> {
    object_keys(text).map_values(|k: Seq<char>| key_value(k))
}

/// One of the three fields of a token record.
pub open spec fn is_record_field(k: Seq<char>) -> bool {
    k == "access_token"@ || k == "expiration_date"@ || k == "login"@
}

/// Member `j` repeats a record field named by an earlier member.
pub open spec fn repeated_at(vals: Seq<Option<Seq<char>>>, j: int) -> bool {
    &&& vals[j] matches Some(k)
    &&& is_record_field(k)
    &&& exists|i: int| 0 <= i < j && #[trigger] vals[i] == vals[j]
}

/// The first record field that a member among the first `n` repeats, if any.
pub open spec fn first_repeated(vals: Seq<Option<Seq<char>>>, n: nat) -> Option<Seq<char>>
    decreases n,
{
    if n == 0 {
        None
    } else {
        match first_repeated(vals, (n - 1) as nat) {
            Some(k) => Some(k),
            None => if repeated_at(vals, n - 1) {
                vals[n - 1]
            } else {
                None
            },
        }
    }
}

/// The first record field that the object text `text` repeats, if any.
pub open spec fn repeated_field(text: Seq<char>) -> Option<Seq<char>> {
    first_repeated(key_values(text), key_values(text).len())
}

/// Whether `s` holds a backslash.
fn has_backslash(s: &str) -> (r: bool)
    ensures
        r == s@.contains('\\'),
{
    let mut found = false;
    for ch in it: s.chars()
        invariant
            it.seq() == s@,
            found <==> exists|i: int| 0 <= i < it.index() && s@[i] == '\\',
    {
        if ch == '\\' {
            found = true;
        }
    }
    found
}

/// The name a member name denotes.
fn key_value_of(raw: &String) -> (r: Option<String>)
    ensures
        match key_value(raw@) {
            Some(k) => r matches Some(s) && s@ == k,
            None => r is None,
        },
{
    if has_backslash(raw.as_str()) {
        let quoted = "\"".to_owned().concat(raw.as_str()).concat("\"");
        parse_json_string(quoted.as_str())
    } else {
        Some(raw.clone())
    }
}

/// Whether two denoted names are the same.
fn same_name(a: &Option<String>, b: &Option<String>) -> (r: bool)
    ensures
        r == (match (a, b) {
            (Some(x), Some(y)) => x@ == y@,
            (None, None) => true,
            _ => false,
        }),
{
    match (a, b) {
        (Some(x), Some(y)) => *x == *y,
        (None, None) => true,
        _ => false,
    }
}

/// Whether `k` is one of the three fields of a token record.
fn is_record_field_name(k: &String) -> (r: bool)
    ensures
        r == is_record_field(k@),
{
    proof {
        reveal_strlit("access_token");
        reveal_strlit("expiration_date");
        reveal_strlit("login");
    }
    *k == "access_token".to_owned() || *k == "expiration_date".to_owned() || *k == "login".to_owned()
}

/// The first record field that the object text `text` repeats, if any.
pub fn find_repeated_field(text: &str) -> (r: Option<String>)
    ensures
        match repeated_field(text@) {
            Some(k) => r matches Some(s) && s@ == k,
            None => r is None,
        },
{
    let raws = object_keys_of(text);
    let ghost vals = key_values(text@);
    let n = raws.len();
    let mut names: Vec<Option<String>> = Vec::new();
    let mut k: usize = 0;
    while k < n
        invariant
            n == raws@.len(),
            n == vals.len(),
            vals == key_values(text@),
            forall|i: int| 0 <= i < n ==> #[trigger] raws@[i]@ == object_keys(text@)[i],
            k <= n,
            names@.len() == k,
            forall|i: int| 0 <= i < k ==> match #[trigger] vals[i] {
                Some(v) => names@[i] matches Some(s) && s@ == v,
                None => names@[i] is None,
            },
        decreases n - k,
    {
        let v = key_value_of(&raws[k]);
        names.push(v);
        k = k + 1;
    }
    let mut j: usize = 0;
    while j < n
        invariant
            n == vals.len(),
            n == names@.len(),
            vals == key_values(text@),
            forall|i: int| 0 <= i < n ==> match #[trigger] vals[i] {
                Some(v) => names@[i] matches Some(s) && s@ == v,
                None => names@[i] is None,
            },
            j <= n,
            first_repeated(vals, j as nat) is None,
        decreases n - j,
    {
        let mut repeated = false;
        if let Some(name) = &names[j] {
            if is_record_field_name(name) {
                let mut i: usize = 0;
                while i < j
                    invariant
                        j < n,
                        n == vals.len(),
                        n == names@.len(),
                        forall|q: int| 0 <= q < n ==> match #[trigger] vals[q] {
                            Some(v) => names@[q] matches Some(s) && s@ == v,
                            None => names@[q] is None,
                        },
                        i <= j,
                        repeated <==> exists|q: int| 0 <= q < i && #[trigger] vals[q] == vals[j as int],
                    decreases j - i,
                {
                    let same = same_name(&names[i], &names[j]);
                    proof {
                        let a = vals[i as int];
                        let b = vals[j as int];
                        assert(same <==> a == b);
                    }
                    if same {
                        repeated = true;
                    }
                    i = i + 1;
                }
            }
        }
        proof {
            assert(repeated <==> repeated_at(vals, j as int));
        }
        if repeated {
            proof {
                lemma_first_repeated_stays(vals, (j + 1) as nat, n as nat);
            }
            return names[j].clone();
        }
        j = j + 1;
    }
    None
}

/// Once a repeat is found among the first `m` members, it stays the first one.
proof fn lemma_first_repeated_stays(vals: Seq<Option<Seq<char>>>, m: nat, n: nat)
    requires
        m <= n,
        first_repeated(vals, m) is Some,
    ensures
        first_repeated(vals, n) == first_repeated(vals, m),
    decreases n - m,
{
    if m < n {
        lemma_first_repeated_stays(vals, m, (n - 1) as nat);
    }
}

/// The hexadecimal digit for `n` in `0..16`, as serde_json writes it.
pub open spec fn hex_digit(n: int) -> char {
    seq!['0', '1', '2', '3', '4', '5', '6', '7', '8', '9', 'a', 'b', 'c', 'd', 'e', 'f'][n]
}

/// How serde_json writes a character inside a string literal: `"` and `\`
/// behind a backslash, the named escapes `\b \t \n \f \r`, other control
/// characters as `\u00XX`, and every other character as itself.
pub open spec fn escape_char(c: char) -> Seq<char> {
    if c == '"' {
        seq!['\\', '"']
    } else if c == '\\' {
        seq!['\\', '\\']
    } else if c == '\u{8}' {
        seq!['\\', 'b']
    } else if c == '\t' {
        seq!['\\', 't']
    } else if c == '\n' {
        seq!['\\', 'n']
    } else if c == '\u{c}' {
        seq!['\\', 'f']
    } else if c == '\r' {
        seq!['\\', 'r']
    } else if (c as u32) < 0x20 {
        seq!['\\', 'u', '0', '0', hex_digit(((c as u32) / 16) as int), hex_digit(((c as u32) % 16) as int)]
    } else {
        seq![c]
    }
}

/// The characters of `s`, each written as [`escape_char`] writes it.
pub open spec fn escape_str(s: Seq<char>) -> Seq<char>
    decreases s.len(),
{
    if s.len() == 0 {
        Seq::empty()
    } else {
        escape_str(s.drop_last()) + escape_char(s.last())
    }
}

/// The JSON string literal serde_json writes for `s`.
pub open spec fn json_string_literal(s: Seq<char>) -> Seq<char> {
    seq!['"'] + escape_str(s) + seq!['"']
}

/// Scanning one more character is one more step.
pub proof fn lemma_scan_push(s: KeyScan, a: Seq<char>, c: char)
    ensures
        scan_run(s, a.push(c)) == scan_step(scan_run(s, a), c),
{
    assert(a.push(c).drop_last() =~= a);
}

/// A state inside a string inside a member value.
pub open spec fn in_value_string(s: KeyScan) -> bool {
    s.mode == ScanMode::InValue && s.in_str && !s.escaped
}

/// The hexadecimal digits are neither quotes nor backslashes.
proof fn lemma_hex_digit(n: int)
    requires
        0 <= n < 16,
    ensures
        hex_digit(n) != '"',
        hex_digit(n) != '\\',
{
    let d = seq!['0', '1', '2', '3', '4', '5', '6', '7', '8', '9', 'a', 'b', 'c', 'd', 'e', 'f'];
    assert(d[0] == '0' && d[1] == '1' && d[2] == '2' && d[3] == '3' && d[4] == '4' && d[5] == '5');
    assert(d[6] == '6' && d[7] == '7' && d[8] == '8' && d[9] == '9' && d[10] == 'a' && d[11] == 'b');
    assert(d[12] == 'c' && d[13] == 'd' && d[14] == 'e' && d[15] == 'f');
}

/// Inside a string value, one written character leaves the scan where it was.
proof fn lemma_escape_char_in_string(s: KeyScan, c: char)
    requires
        in_value_string(s),
    ensures
        scan_run(s, escape_char(c)) == s,
{
    let e = escape_char(c);
    if e.len() == 1 {
        assert(e =~= Seq::<char>::empty().push(e[0]));
        lemma_scan_push(s, Seq::<char>::empty(), e[0]);
    } else if e.len() == 2 {
        assert(e =~= Seq::<char>::empty().push(e[0]).push(e[1]));
        lemma_scan_push(s, Seq::<char>::empty(), e[0]);
        lemma_scan_push(s, Seq::<char>::empty().push(e[0]), e[1]);
    } else {
        let x = (c as u32) / 16;
        let y = (c as u32) % 16;
        lemma_hex_digit(x as int);
        lemma_hex_digit(y as int);
        let p0 = Seq::<char>::empty();
        let p1 = p0.push('\\');
        let p2 = p1.push('u');
        let p3 = p2.push('0');
        let p4 = p3.push('0');
        let p5 = p4.push(hex_digit(x as int));
        let p6 = p5.push(hex_digit(y as int));
        assert(e =~= p6);
        lemma_scan_push(s, p0, '\\');
        lemma_scan_push(s, p1, 'u');
        lemma_scan_push(s, p2, '0');
        lemma_scan_push(s, p3, '0');
        lemma_scan_push(s, p4, hex_digit(x as int));
        lemma_scan_push(s, p5, hex_digit(y as int));
    }
}

/// Inside a string value, the written characters of a string leave the scan where it was.
proof fn lemma_escape_str_in_string(s: KeyScan, t: Seq<char>)
    requires
        in_value_string(s),
    ensures
        scan_run(s, escape_str(t)) == s,
    decreases t.len(),
{
    if t.len() > 0 {
        lemma_escape_str_in_string(s, t.drop_last());
        lemma_scan_run_append(s, escape_str(t.drop_last()), escape_char(t.last()));
        lemma_escape_char_in_string(s, t.last());
    }
}

/// A member value that is a string literal written by serde_json leaves the
/// scan where it was, outside any string.
pub proof fn lemma_string_value(s: KeyScan, t: Seq<char>)
    requires
        s.mode == ScanMode::InValue,
        !s.in_str,
    ensures
        scan_run(s, json_string_literal(t)) == with_str(s, false, false),
{
    let open_q = seq!['"'];
    assert(open_q =~= Seq::<char>::empty().push('"'));
    lemma_scan_push(s, Seq::<char>::empty(), '"');
    let s1 = with_str(s, true, false);
    assert(scan_run(s, open_q) == s1);
    lemma_escape_str_in_string(s1, t);
    lemma_scan_run_append(s, open_q, escape_str(t));
    lemma_scan_run_append(s, open_q + escape_str(t), seq!['"']);
    assert(seq!['"'] =~= Seq::<char>::empty().push('"'));
    lemma_scan_push(s1, Seq::<char>::empty(), '"');
}

/// Inside a member name, characters other than quotes and backslashes are
/// collected as they are.
proof fn lemma_plain_name(s: KeyScan, k: Seq<char>)
    requires
        s.mode == ScanMode::InKey,
        !s.escaped,
        !k.contains('"'),
        !k.contains('\\'),
    ensures
        scan_run(s, k) == with_cur(s, s.cur + k, false),
    decreases k.len(),
{
    if k.len() == 0 {
        assert(s.cur + k =~= s.cur);
    } else {
        let j = k.drop_last();
        assert forall|i: int| 0 <= i < j.len() implies j[i] != '"' && j[i] != '\\' by {
            assert(j[i] == k[i]);
        }
        lemma_plain_name(s, j);
        assert(k.last() == k[k.len() - 1]);
        assert(s.cur + k =~= (s.cur + j).push(k.last()));
    }
}

/// A member name without quotes or backslashes, written in quotes after an
/// opening brace or a comma, is read as it is.
pub proof fn lemma_plain_key(s: KeyScan, k: Seq<char>)
    requires
        s.mode == ScanMode::ExpectKey,
        !k.contains('"'),
        !k.contains('\\'),
    ensures
        scan_run(s, seq!['"'] + k + seq!['"']) == (KeyScan {
            mode: ScanMode::AfterKey,
            depth: s.depth,
            in_str: s.in_str,
            escaped: false,
            cur: k,
            keys: s.keys.push(k),
        }),
{
    assert(seq!['"'] =~= Seq::<char>::empty().push('"'));
    lemma_scan_push(s, Seq::<char>::empty(), '"');
    let s1 = with_cur(with_mode(s, ScanMode::InKey), Seq::empty(), false);
    lemma_plain_name(s1, k);
    assert(Seq::<char>::empty() + k =~= k);
    lemma_scan_run_append(s, seq!['"'], k);
    lemma_scan_run_append(s, seq!['"'] + k, seq!['"']);
    lemma_scan_push(with_cur(s1, k, false), Seq::<char>::empty(), '"');
}

} // verus!
