//! Internationalisation: the supported locales, their string tables, and
//! locale negotiation from tags and `Accept-Language` headers.

use vstd::prelude::*;

use crate::text::{
    before_char, find_char, lemma_before_char_len, str_chars, trim, trim_bounds,
};

verus! {

/// A supported locale.
#[derive(Debug, Clone, Copy, PartialEq, Eq, Structural, Hash)]
pub enum Locale {
    Ja,
    En,
}

/// Every user-facing label of the UI, one table per locale.
#[derive(Debug, Clone, Copy)]
pub struct Strings {
    pub button_save: &'static str,
    pub login_title: &'static str,
    pub me_tab_overview: &'static str,
    pub me_tab_mfa: &'static str,
    pub me_tab_passkey: &'static str,
    pub me_tab_sessions: &'static str,
    pub me_tab_language: &'static str,
    pub me_security_tabs_aria: &'static str,
    pub settings_tab_basic: &'static str,
    pub settings_tab_security: &'static str,
    pub settings_tab_authentication: &'static str,
    pub settings_tab_logs: &'static str,
    pub settings_tab_email: &'static str,
    pub settings_tab_advanced: &'static str,
    pub settings_tabs_aria: &'static str,
    pub step_up_code_invalid: &'static str,
}

impl Strings {
    /// Every label of the table is filled in.
    pub open spec fn complete(&self) -> bool {
        &&& self.button_save@.len() > 0
        &&& self.login_title@.len() > 0
        &&& self.me_tab_overview@.len() > 0
        &&& self.me_tab_mfa@.len() > 0
        &&& self.me_tab_passkey@.len() > 0
        &&& self.me_tab_sessions@.len() > 0
        &&& self.me_tab_language@.len() > 0
        &&& self.me_security_tabs_aria@.len() > 0
        &&& self.settings_tab_basic@.len() > 0
        &&& self.settings_tab_security@.len() > 0
        &&& self.settings_tab_authentication@.len() > 0
        &&& self.settings_tab_logs@.len() > 0
        &&& self.settings_tab_email@.len() > 0
        &&& self.settings_tab_advanced@.len() > 0
        &&& self.settings_tabs_aria@.len() > 0
        &&& self.step_up_code_invalid@.len() > 0
    }
}

/// Every character of `s` is ASCII.
pub open spec fn all_ascii(s: Seq<char>) -> bool {
    forall|i: int| 0 <= i < s.len() ==> (s[i] as u32) < 128
}

/// The labels of each locale.
pub open spec fn strings_table(l: Locale) -> Strings {
    match l {
        Locale::Ja => Strings {
                button_save: "保存",
                login_title: "サインイン",
                me_tab_overview: "概要",
                me_tab_mfa: "二要素認証",
                me_tab_passkey: "パスキー",
                me_tab_sessions: "セッション",
                me_tab_language: "言語",
                me_security_tabs_aria: "セキュリティ設定",
                settings_tab_basic: "基本",
                settings_tab_security: "セキュリティ",
                settings_tab_authentication: "認証",
                settings_tab_logs: "ログ",
                settings_tab_email: "メール",
                settings_tab_advanced: "詳細",
                settings_tabs_aria: "設定",
                step_up_code_invalid: "コードが正しくありません。もう一度お試しください。",
            },
        Locale::En => Strings {
                button_save: "Save",
                login_title: "Sign in",
                me_tab_overview: "Overview",
                me_tab_mfa: "Two-factor",
                me_tab_passkey: "Passkeys",
                me_tab_sessions: "Sessions",
                me_tab_language: "Language",
                me_security_tabs_aria: "Security settings",
                settings_tab_basic: "Basic",
                settings_tab_security: "Security",
                settings_tab_authentication: "Authentication",
                settings_tab_logs: "Logs",
                settings_tab_email: "Email",
                settings_tab_advanced: "Advanced",
                settings_tabs_aria: "Settings",
                step_up_code_invalid: "The code is incorrect. Please try again.",
            },
    }
}

/// The Japanese table.
pub fn strings_ja() -> (r: Strings)
    ensures
        r == strings_table(Locale::Ja),
        r.complete(),
        r.button_save@ == seq!['保', '存'],
{
    let r = Strings {
        button_save: "保存",
        login_title: "サインイン",
        me_tab_overview: "概要",
        me_tab_mfa: "二要素認証",
        me_tab_passkey: "パスキー",
        me_tab_sessions: "セッション",
        me_tab_language: "言語",
        me_security_tabs_aria: "セキュリティ設定",
        settings_tab_basic: "基本",
        settings_tab_security: "セキュリティ",
        settings_tab_authentication: "認証",
        settings_tab_logs: "ログ",
        settings_tab_email: "メール",
        settings_tab_advanced: "詳細",
        settings_tabs_aria: "設定",
        step_up_code_invalid: "コードが正しくありません。もう一度お試しください。",
    };
    proof {
        reveal_strlit("保存");
        reveal_strlit("サインイン");
        reveal_strlit("概要");
        reveal_strlit("二要素認証");
        reveal_strlit("パスキー");
        reveal_strlit("セッション");
        reveal_strlit("言語");
        reveal_strlit("セキュリティ設定");
        reveal_strlit("基本");
        reveal_strlit("セキュリティ");
        reveal_strlit("認証");
        reveal_strlit("ログ");
        reveal_strlit("メール");
        reveal_strlit("詳細");
        reveal_strlit("設定");
        reveal_strlit("コードが正しくありません。もう一度お試しください。");
        assert(r.button_save@ =~= seq!['保', '存']);
    }
    r
}

/// The English table.
pub fn strings_en() -> (r: Strings)
    ensures
        r == strings_table(Locale::En),
        r.complete(),
        all_ascii(r.button_save@),
{
    let r = Strings {
        button_save: "Save",
        login_title: "Sign in",
        me_tab_overview: "Overview",
        me_tab_mfa: "Two-factor",
        me_tab_passkey: "Passkeys",
        me_tab_sessions: "Sessions",
        me_tab_language: "Language",
        me_security_tabs_aria: "Security settings",
        settings_tab_basic: "Basic",
        settings_tab_security: "Security",
        settings_tab_authentication: "Authentication",
        settings_tab_logs: "Logs",
        settings_tab_email: "Email",
        settings_tab_advanced: "Advanced",
        settings_tabs_aria: "Settings",
        step_up_code_invalid: "The code is incorrect. Please try again.",
    };
    proof {
        reveal_strlit("Save");
        reveal_strlit("Sign in");
        reveal_strlit("Overview");
        reveal_strlit("Two-factor");
        reveal_strlit("Passkeys");
        reveal_strlit("Sessions");
        reveal_strlit("Language");
        reveal_strlit("Security settings");
        reveal_strlit("Basic");
        reveal_strlit("Security");
        reveal_strlit("Authentication");
        reveal_strlit("Logs");
        reveal_strlit("Email");
        reveal_strlit("Advanced");
        reveal_strlit("Settings");
        reveal_strlit("The code is incorrect. Please try again.");
    }
    r
}

/// The BCP-47 tag of a locale, as characters.
pub open spec fn tag_chars(l: Locale) -> Seq<char> {
    match l {
        Locale::Ja => seq!['j', 'a'],
        Locale::En => seq!['e', 'n'],
    }
}

/// The locale's own name for itself, as characters.
pub open spec fn native_name_chars(l: Locale) -> Seq<char> {
    match l {
        Locale::Ja => seq!['日', '本', '語'],
        Locale::En => seq!['E', 'n', 'g', 'l', 'i', 's', 'h'],
    }
}

/// A region/script separator inside a language tag.
pub open spec fn is_tag_sep(c: char) -> bool {
    c == '-' || c == '_'
}

/// The primary subtag: everything before the first `-` or `_`.
pub open spec fn primary_subtag(s: Seq<char>) -> Seq<char>
    decreases s.len(),
{
    if s.len() == 0 || is_tag_sep(s[0]) {
        Seq::empty()
    } else {
        seq![s[0]] + primary_subtag(s.drop_first())
    }
}

/// `char::to_ascii_lowercase`.
pub open spec fn ascii_lower(c: char) -> char {
    if 'A' <= c && c <= 'Z' {
        ((c as u32) + 32) as char
    } else {
        c
    }
}

/// `str::to_ascii_lowercase`.
pub open spec fn ascii_lower_seq(s: Seq<char>) -> Seq<char> {
    s.map_values(|c: char| ascii_lower(c))
}

/// The locale a tag names: its primary subtag, ASCII-lowercased, must be
/// exactly `ja` or `en`.
pub open spec fn parse_tag(s: Seq<char>) -> Option<Locale> {
    let p = ascii_lower_seq(primary_subtag(s));
    if p == seq!['j', 'a'] {
        Some(Locale::Ja)
    } else if p == seq!['e', 'n'] {
        Some(Locale::En)
    } else {
        None
    }
}

/// The locale an `Accept-Language` header selects: split on `,`, cut each
/// entry at its first `;`, trim it, and take the first entry that parses.
/// `q=` weights play no part.
pub open spec fn negotiate(s: Seq<char>) -> Option<Locale>
    decreases s.len(),
{
    let seg = before_char(s, ',');
    match parse_tag(trim(before_char(seg, ';'))) {
        Some(l) => Some(l),
        None => if seg.len() < s.len() {
            proof {
                lemma_before_char_len(s, ',');
            }
            negotiate(s.skip(seg.len() as int + 1))
        } else {
            None
        },
    }
}

proof fn lemma_primary_subtag_index(s: Seq<char>, k: int)
    requires
        0 <= k <= s.len(),
        k < s.len() ==> is_tag_sep(s[k]),
        forall|i: int| 0 <= i < k ==> !is_tag_sep(s[i]),
    ensures
        primary_subtag(s) =~= s.take(k),
    decreases s.len(),
{
    if s.len() > 0 && !is_tag_sep(s[0]) {
        let t = s.drop_first();
        assert forall|i: int| 0 <= i < k - 1 implies !is_tag_sep(t[i]) by {
            assert(t[i] == s[i + 1]);
        }
        lemma_primary_subtag_index(t, k - 1);
        assert(primary_subtag(s) =~= seq![s[0]] + t.take(k - 1));
    }
}

proof fn lemma_primary_subtag_props(s: Seq<char>)
    ensures
        primary_subtag(s).len() <= s.len(),
        primary_subtag(s).len() < s.len() ==> is_tag_sep(s[primary_subtag(s).len() as int]),
        forall|i: int| 0 <= i < primary_subtag(s).len() ==> !is_tag_sep(s[i]),
        primary_subtag(s) =~= s.take(primary_subtag(s).len() as int),
    decreases s.len(),
{
    if s.len() > 0 && !is_tag_sep(s[0]) {
        let t = s.drop_first();
        lemma_primary_subtag_props(t);
        assert forall|i: int| 0 <= i < primary_subtag(s).len() implies !is_tag_sep(s[i]) by {
            if i > 0 {
                assert(s[i] == t[i - 1]);
            }
        }
    }
}

proof fn lemma_lower_is(c: char, lower: char, upper: char)
    requires
        'a' <= lower <= 'z',
        upper as u32 + 32 == lower as u32,
    ensures
        ascii_lower(c) == lower <==> (c == lower || c == upper),
{
}

/// Locale of the characters `v[lo..hi]` read as a tag.
fn parse_tag_range(v: &Vec<char>, lo: usize, hi: usize) -> (r: Option<Locale>)
    requires
        lo <= hi <= v.len(),
    ensures
        r == parse_tag(v@.subrange(lo as int, hi as int)),
{
    let ghost s = v@.subrange(lo as int, hi as int);
    let mut k: usize = lo;
    while k < hi && v[k] != '-' && v[k] != '_'
        invariant
            lo <= k <= hi,
            hi <= v.len(),
            forall|i: int| lo <= i < k ==> !is_tag_sep(v@[i]),
        decreases hi - k,
    {
        k = k + 1;
    }
    proof {
        assert forall|i: int| 0 <= i < k - lo implies !is_tag_sep(s[i]) by {
            assert(s[i] == v@[lo + i]);
        }
        lemma_primary_subtag_index(s, k - lo);
        lemma_lower_is(v@[lo as int], 'j', 'J');
        lemma_lower_is(v@[lo as int], 'e', 'E');
        if k - lo == 2 {
            lemma_lower_is(v@[lo + 1], 'a', 'A');
            lemma_lower_is(v@[lo + 1], 'n', 'N');
        }
    }
    let ghost p = ascii_lower_seq(s.take(k - lo));
    if k - lo != 2 {
        assert(p.len() != 2);
        assert(p != seq!['j', 'a']);
        assert(p != seq!['e', 'n']);
        return None;
    }
    let c0 = v[lo];
    let c1 = v[lo + 1];
    assert(p[0] == ascii_lower(c0));
    assert(p[1] == ascii_lower(c1));
    if (c0 == 'j' || c0 == 'J') && (c1 == 'a' || c1 == 'A') {
        assert(p =~= seq!['j', 'a']);
        Some(Locale::Ja)
    } else if (c0 == 'e' || c0 == 'E') && (c1 == 'n' || c1 == 'N') {
        assert(p =~= seq!['e', 'n']);
        Some(Locale::En)
    } else {
        assert(p != seq!['j', 'a'] && p != seq!['e', 'n']) by {
            if p == seq!['j', 'a'] {
                assert(p[0] == 'j' && p[1] == 'a');
            }
            if p == seq!['e', 'n'] {
                assert(p[0] == 'e' && p[1] == 'n');
            }
        }
        None
    }
}

/// Every locale's tag parses back to that locale.
pub proof fn lemma_parse_tag_roundtrip(l: Locale)
    ensures
        parse_tag(tag_chars(l)) == Some(l),
{
    let t = tag_chars(l);
    lemma_primary_subtag_index(t, 2);
    assert(t.take(2) =~= t);
    assert(ascii_lower_seq(t) =~= t);
}

/// A region or script suffix after `-` or `_` does not change which locale
/// a tag names.
pub proof fn lemma_parse_ignores_region(s: Seq<char>, sep: char, rest: Seq<char>)
    requires
        is_tag_sep(sep),
    ensures
        parse_tag(primary_subtag(s) + seq![sep] + rest) == parse_tag(s),
{
    lemma_primary_subtag_props(s);
    let p = primary_subtag(s);
    let u = p + seq![sep] + rest;
    assert forall|i: int| 0 <= i < p.len() implies !is_tag_sep(u[i]) by {
        assert(u[i] == s[i]);
    }
    lemma_primary_subtag_index(u, p.len() as int);
    assert(u.take(p.len() as int) =~= p);
}

/// Tags are read without regard to ASCII case.
pub proof fn lemma_parse_ignores_ascii_case(s: Seq<char>)
    ensures
        parse_tag(ascii_lower_seq(s)) == parse_tag(s),
{
    lemma_primary_subtag_props(s);
    let k = primary_subtag(s).len() as int;
    let u = ascii_lower_seq(s);
    assert forall|i: int| 0 <= i < k implies !is_tag_sep(u[i]) by {
        assert(u[i] == ascii_lower(s[i]));
    }
    if k < s.len() {
        assert(u[k] == ascii_lower(s[k]));
    }
    lemma_primary_subtag_index(u, k);
    assert(ascii_lower_seq(u.take(k)) =~= ascii_lower_seq(s.take(k))) by {
        assert forall|i: int| 0 <= i < k implies ascii_lower(ascii_lower(s[i])) == ascii_lower(
            s[i],
        ) by {}
    }
}

/// The first entry of an `Accept-Language` list whose tag is recognised
/// decides; later entries are read only when it is not.
pub proof fn lemma_negotiate_first_entry(a: Seq<char>, b: Seq<char>)
    requires
        !a.contains(','),
    ensures
        negotiate(a + seq![','] + b) == (match parse_tag(trim(before_char(a, ';'))) {
            Some(l) => Some(l),
            None => negotiate(b),
        }),
{
    let s = a + seq![','] + b;
    assert forall|i: int| 0 <= i < a.len() implies s[i] != ',' by {
        assert(s[i] == a[i]);
        if a[i] == ',' {
            assert(a.contains(','));
        }
    }
    crate::text::lemma_before_char_index(s, ',', a.len() as int);
    assert(s.take(a.len() as int) =~= a);
    assert(s.skip(a.len() as int + 1) =~= b);
}

/// The language-tag part (before any `;`) of each `,`-separated entry of a
/// header, in order.
pub open spec fn tag_parts(s: Seq<char>) -> Seq<Seq<char>>
    decreases s.len(),
{
    let seg = before_char(s, ',');
    seq![before_char(seg, ';')] + if seg.len() < s.len() {
        proof {
            lemma_before_char_len(s, ',');
        }
        tag_parts(s.skip(seg.len() as int + 1))
    } else {
        Seq::empty()
    }
}

/// The first of the tag parts that names a locale.
pub open spec fn first_recognised(parts: Seq<Seq<char>>) -> Option<Locale>
    decreases parts.len(),
{
    if parts.len() == 0 {
        None
    } else {
        match parse_tag(trim(parts[0])) {
            Some(l) => Some(l),
            None => first_recognised(parts.drop_first()),
        }
    }
}

proof fn lemma_negotiate_first_recognised(s: Seq<char>)
    ensures
        negotiate(s) == first_recognised(tag_parts(s)),
    decreases s.len(),
{
    let seg = before_char(s, ',');
    lemma_before_char_len(s, ',');
    let p = tag_parts(s);
    assert(p[0] == before_char(seg, ';'));
    if seg.len() < s.len() {
        let rest = s.skip(seg.len() as int + 1);
        lemma_negotiate_first_recognised(rest);
        assert(p.drop_first() =~= tag_parts(rest));
    } else {
        assert(p.drop_first() =~= Seq::<Seq<char>>::empty());
        assert(first_recognised(p.drop_first()) is None);
    }
    assert(p.len() > 0);
    assert(first_recognised(p) == match parse_tag(trim(p[0])) {
        Some(l) => Some(l),
        None => first_recognised(p.drop_first()),
    });
}

/// `q=` weights and other `;` parameters never change the pick: two headers
/// whose entries have the same tags, in the same order, select the same
/// locale.
pub proof fn lemma_negotiate_ignores_parameters(h1: Seq<char>, h2: Seq<char>)
    requires
        tag_parts(h1) == tag_parts(h2),
    ensures
        negotiate(h1) == negotiate(h2),
{
    lemma_negotiate_first_recognised(h1);
    lemma_negotiate_first_recognised(h2);
}

/// `q=` weights are ignored: a weight after `;` does not change the
/// outcome of a one-entry header.
pub proof fn lemma_negotiate_ignores_weight(t: Seq<char>, w: Seq<char>)
    requires
        !t.contains(','),
        !t.contains(';'),
        !w.contains(','),
    ensures
        negotiate(t + seq![';'] + w) == parse_tag(trim(t)),
        negotiate(t) == parse_tag(trim(t)),
{
    let s = t + seq![';'] + w;
    crate::text::lemma_before_char_index(t, ',', t.len() as int);
    crate::text::lemma_before_char_index(t, ';', t.len() as int);
    assert(t.take(t.len() as int) =~= t);
    assert forall|i: int| 0 <= i < s.len() implies s[i] != ',' by {
        if i < t.len() {
            assert(s[i] == t[i]);
            if t[i] == ',' {
                assert(t.contains(','));
            }
        } else if i > t.len() {
            assert(s[i] == w[i - t.len() - 1]);
            if w[i - t.len() - 1] == ',' {
                assert(w.contains(','));
            }
        }
    }
    crate::text::lemma_before_char_index(s, ',', s.len() as int);
    assert(s.take(s.len() as int) =~= s);
    assert forall|i: int| 0 <= i < t.len() implies s[i] != ';' by {
        assert(s[i] == t[i]);
        if t[i] == ';' {
            assert(t.contains(';'));
        }
    }
    crate::text::lemma_before_char_index(s, ';', t.len() as int);
    assert(s.take(t.len() as int) =~= t);
}

impl Locale {
    /// All locales, in display order.
    pub const ALL: [Locale; 2] = [Locale::Ja, Locale::En];

    /// BCP-47 language tag, stable across releases.
    pub fn tag(self) -> (r: &'static str)
        ensures
            r@ == tag_chars(self),
    {
        proof {
            reveal_strlit("ja");
            reveal_strlit("en");
        }
        match self {
            Locale::Ja => "ja",
            Locale::En => "en",
        }
    }

    /// The locale's name in its own script.
    pub fn native_name(self) -> (r: &'static str)
        ensures
            r@ == native_name_chars(self),
    {
        proof {
            reveal_strlit("日本語");
            reveal_strlit("English");
        }
        match self {
            Locale::Ja => "日本語",
            Locale::En => "English",
        }
    }

    /// Parse a tag: region suffixes (`en-US`, `ja_JP`) and ASCII case are
    /// tolerated; anything else is `None`.
    pub fn parse(tag: &str) -> (r: Option<Locale>)
        ensures
            r == parse_tag(tag@),
    {
        let v = str_chars(tag);
        let r = parse_tag_range(&v, 0, v.len());
        assert(v@.subrange(0, v@.len() as int) =~= tag@);
        r
    }

    /// Strings table for this locale.
    pub fn strings(self) -> (r: Strings)
        ensures
            r == strings_table(self),
            r.complete(),
            self == Locale::Ja ==> r.button_save@ == seq!['保', '存'],
    {
        match self {
            Locale::Ja => strings_ja(),
            Locale::En => strings_en(),
        }
    }
}

impl Default for Locale {
    fn default() -> (r: Locale)
        ensures
            r == Locale::Ja,
    {
        Locale::Ja
    }
}

/// Pick a locale from an `Accept-Language` header: the first entry whose
/// tag is recognised wins, whatever its `q` weight.
pub fn negotiate_from_accept_language(header: &str) -> (r: Option<Locale>)
    ensures
        r == negotiate(header@),
{
    let v = str_chars(header);
    let n = v.len();
    let mut i: usize = 0;
    assert(v@.skip(0) =~= v@);
    loop
        invariant
            i <= n,
            n == v@.len(),
            v@ == header@,
            negotiate(v@) == negotiate(v@.skip(i as int)),
        decreases n - i,
    {
        let ghost s = v@.skip(i as int);
        let j = find_char(&v, i, n, ',');
        let k = find_char(&v, i, j, ';');
        let (a, b) = trim_bounds(&v, i, k);
        let parsed = parse_tag_range(&v, a, b);
        let ghost seg = before_char(s, ',');
        proof {
            assert(v@.subrange(i as int, n as int) =~= s);
            assert(seg == v@.subrange(i as int, j as int));
            assert(before_char(seg, ';') == v@.subrange(i as int, k as int)) by {
                assert(v@.subrange(i as int, j as int) =~= v@.subrange(i as int, j as int));
            }
        }
        match parsed {
            Some(l) => {
                assert(parse_tag(trim(before_char(seg, ';'))) == Some(l));
                assert(negotiate(s) == Some(l));
                return Some(l);
            },
            None => {
                if j == n {
                    assert(seg.len() == s.len());
                    assert(negotiate(s) == None::<Locale>);
                    return None;
                }
                proof {
                    assert(s.skip((j - i) + 1) =~= v@.skip(j + 1));
                }
                i = j + 1;
            },
        }
    }
}

} // verus!
