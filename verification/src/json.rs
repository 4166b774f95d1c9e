//! JSON string escaping: the specification, an executable writer proved
//! against it, and the scanning specification used to read an escaped string
//! back.

use vstd::prelude::*;
use vstd::string::StringExecFns;

verus! {

/// Lowercase hex digit for a value below 16.
pub open spec fn hex_char(i: int) -> char {
    if 0 <= i < 10 {
        (48 + i) as char  // '0'..='9'
    } else {
        (87 + i) as char  // 'a'..='f'
    }
}

/// Value of a hex digit; -1 for any other character.
pub open spec fn hex_val(c: char) -> int {
    let v = c as int;
    if 48 <= v <= 57 {
        v - 48
    } else if 97 <= v <= 102 {
        v - 97 + 10
    } else if 65 <= v <= 70 {
        v - 65 + 10
    } else {
        -1
    }
}

/// A character that a JSON string holds as itself, with no escape.
pub open spec fn json_plain(c: char) -> bool {
    c != '"' && c != '\\' && c as int >= 32
}

/// How one character is written inside a JSON string: quote and backslash
/// get a two-character escape, the named control characters their short
/// forms, any other control character a `\u00..` form, and the rest stand
/// as themselves.
pub open spec fn json_escape_char(c: char) -> Seq<char> {
    if c == '"' {
        seq!['\\', '"']
    } else if c == '\\' {
        seq!['\\', '\\']
    } else if c == '\u{8}' {
        seq!['\\', 'b']
    } else if c == '\t' {
        seq!['\\', 't']
    } else if c == '\n' {
        seq!['\\', 'n']
    } else if c == '\u{c}' {
        seq!['\\', 'f']
    } else if c == '\r' {
        seq!['\\', 'r']
    } else if (c as int) < 32 {
        seq!['\\', 'u', '0', '0', hex_char(c as int / 16), hex_char(c as int % 16)]
    } else {
        seq![c]
    }
}

/// A whole text escaped for use inside a JSON string literal.
pub open spec fn json_escape(s: Seq<char>) -> Seq<char>
    decreases s.len(),
{
    if s.len() == 0 {
        Seq::<char>::empty()
    } else {
        json_escape_char(s[0]) + json_escape(s.skip(1))
    }
}

/// Escaping distributes over concatenation.
pub proof fn lemma_json_escape_append(s: Seq<char>, t: Seq<char>)
    ensures
        json_escape(s + t) == json_escape(s) + json_escape(t),
    decreases s.len(),
{
    if s.len() == 0 {
        assert(s + t =~= t);
        assert(json_escape(s) + json_escape(t) =~= json_escape(t));
    } else {
        lemma_json_escape_append(s.skip(1), t);
        assert((s + t).skip(1) =~= s.skip(1) + t);
        assert(json_escape(s + t) =~= json_escape(s) + json_escape(t));
    }
}

/// Reads the rest of a JSON string after its opening quote, undoing escapes,
/// up to and including the closing quote. Returns the content and how many
/// characters were consumed, or `None` where the text is not a JSON string.
pub open spec fn scan_string(s: Seq<char>) -> Option<(Seq<char>, int)>
    decreases s.len(),
{
    if s.len() == 0 {
        None
    } else if s[0] == '"' {
        Some((Seq::<char>::empty(), 1))
    } else if s[0] == '\\' {
        if s.len() < 2 {
            None
        } else if s[1] == 'u' {
            if s.len() < 6 || hex_val(s[2]) < 0 || hex_val(s[3]) < 0 || hex_val(s[4]) < 0
                || hex_val(s[5]) < 0 {
                None
            } else {
                let h = hex_val(s[2]) * 4096 + hex_val(s[3]) * 256 + hex_val(s[4]) * 16 + hex_val(
                    s[5],
                );
                if 0xD800 <= h < 0xE000 {
                    None
                } else {
                    match scan_string(s.skip(6)) {
                        Some((v, n)) => Some((seq![h as char] + v, n + 6)),
                        None => None,
                    }
                }
            }
        } else {
            let c = if s[1] == '"' {
                '"'
            } else if s[1] == '\\' {
                '\\'
            } else if s[1] == '/' {
                '/'
            } else if s[1] == 'b' {
                '\u{8}'
            } else if s[1] == 'f' {
                '\u{c}'
            } else if s[1] == 'n' {
                '\n'
            } else if s[1] == 'r' {
                '\r'
            } else {
                '\t'
            };
            if s[1] != '"' && s[1] != '\\' && s[1] != '/' && s[1] != 'b' && s[1] != 'f' && s[1]
                != 'n' && s[1] != 'r' && s[1] != 't' {
                None
            } else {
                match scan_string(s.skip(2)) {
                    Some((v, n)) => Some((seq![c] + v, n + 2)),
                    None => None,
                }
            }
        }
    } else if (s[0] as int) < 32 {
        None
    } else {
        match scan_string(s.skip(1)) {
            Some((v, n)) => Some((seq![s[0]] + v, n + 1)),
            None => None,
        }
    }
}

/// Reads `"name":"value"` from the head of `s`, both parts as JSON strings.
/// Returns the unescaped name and value and how many characters were
/// consumed.
pub open spec fn parse_member(s: Seq<char>) -> Option<(Seq<char>, Seq<char>, int)> {
    if s.len() < 1 || s[0] != '"' {
        None
    } else {
        match scan_string(s.skip(1)) {
            None => None,
            Some((name, n)) => {
                let r = s.skip(1 + n);
                if r.len() < 2 || r[0] != ':' || r[1] != '"' {
                    None
                } else {
                    match scan_string(r.skip(2)) {
                        None => None,
                        Some((value, m)) => Some((name, value, 3 + n + m)),
                    }
                }
            },
        }
    }
}

/// Reads a whole JSON object `{"a":"x","b":"y","c":"z"}` of exactly three
/// string members.
pub open spec fn parse_object3(s: Seq<char>) -> Option<
    ((Seq<char>, Seq<char>), (Seq<char>, Seq<char>), (Seq<char>, Seq<char>)),
> {
    if s.len() < 1 || s[0] != '{' {
        None
    } else {
        match parse_member(s.skip(1)) {
            None => None,
            Some((n1, v1, c1)) => {
                let r1 = s.skip(1 + c1);
                if r1.len() < 1 || r1[0] != ',' {
                    None
                } else {
                    match parse_member(r1.skip(1)) {
                        None => None,
                        Some((n2, v2, c2)) => {
                            let r2 = r1.skip(1 + c2);
                            if r2.len() < 1 || r2[0] != ',' {
                                None
                            } else {
                                match parse_member(r2.skip(1)) {
                                    None => None,
                                    Some((n3, v3, c3)) => {
                                        let r3 = r2.skip(1 + c3);
                                        if r3.len() == 1 && r3[0] == '}' {
                                            Some(((n1, v1), (n2, v2), (n3, v3)))
                                        } else {
                                            None
                                        }
                                    },
                                }
                            }
                        },
                    }
                }
            },
        }
    }
}

/// A character's code point is a non-negative scalar and casts back to the
/// same character.
proof fn lemma_char_int(c: char)
    ensures
        c as int >= 0,
        (c as int) as char == c,
{
    vstd::utf8::char_is_scalar(c);
    vstd::utf8::char_u32_cast(c, c as u32);
    assert(c as int == (c as u32) as int);
    assert((c as int) as char == (c as u32) as char);
}

/// Scanning a text of plain characters up to a closing quote yields exactly
/// that text.
pub proof fn lemma_scan_plain(v: Seq<char>, rest: Seq<char>)
    requires
        forall|i: int| 0 <= i < v.len() ==> json_plain(#[trigger] v[i]),
    ensures
        scan_string(v + seq!['"'] + rest) == Some((v, v.len() as int + 1)),
    decreases v.len(),
{
    let s = v + seq!['"'] + rest;
    if v.len() == 0 {
        assert(s[0] == '"');
        assert(scan_string(s) == Some((Seq::<char>::empty(), 1int)));
        assert(v =~= Seq::<char>::empty());
    } else {
        assert(s[0] == v[0]);
        assert(json_plain(v[0]));
        lemma_scan_plain(v.skip(1), rest);
        assert(s.skip(1) =~= v.skip(1) + seq!['"'] + rest);
        let (w, n) = scan_string(s.skip(1))->0;
        assert(w == v.skip(1) && n == v.len());
        assert(seq![s[0]] + v.skip(1) =~= v);
    }
}

/// Scanning an escaped text up to a closing quote undoes the escaping.
pub proof fn lemma_scan_escaped(v: Seq<char>, rest: Seq<char>)
    ensures
        scan_string(json_escape(v) + seq!['"'] + rest) == Some((v, json_escape(v).len() as int + 1)),
    decreases v.len(),
{
    let s = json_escape(v) + seq!['"'] + rest;
    if v.len() == 0 {
        assert(json_escape(v) =~= Seq::<char>::empty());
        assert(s[0] == '"');
        assert(scan_string(s) == Some((Seq::<char>::empty(), 1int)));
    } else {
        let c = v[0];
        let e = json_escape_char(c);
        let tail = json_escape(v.skip(1)) + seq!['"'] + rest;
        assert(json_escape(v) == e + json_escape(v.skip(1)));
        assert(s =~= e + tail);
        lemma_scan_escaped(v.skip(1), rest);
        let n: int = json_escape(v.skip(1)).len() as int + 1;
        assert(scan_string(tail) == Some((v.skip(1), n)));
        if c == '"' || c == '\\' {
            assert(s[0] == '\\' && s[1] == c);
            assert(s.skip(2) =~= tail);
            assert(seq![c] + v.skip(1) =~= v);
        } else if c == '\u{8}' || c == '\t' || c == '\n' || c == '\u{c}' || c == '\r' {
            assert(s[0] == '\\');
            assert(s.skip(2) =~= tail);
            assert(seq![c] + v.skip(1) =~= v);
        } else if (c as int) < 32 {
            assert(s[0] == '\\' && s[1] == 'u' && s[2] == '0' && s[3] == '0');
            assert(s[4] == hex_char(c as int / 16) && s[5] == hex_char(c as int % 16));
            lemma_char_int(c);
            assert(hex_val('0') == 0);
            assert(hex_val(hex_char(c as int / 16)) == c as int / 16);
            assert(hex_val(hex_char(c as int % 16)) == c as int % 16);
            assert(hex_val(s[2]) * 4096 + hex_val(s[3]) * 256 + hex_val(s[4]) * 16 + hex_val(s[5])
                == c as int);
            assert((c as int) as char == c);
            assert(s.skip(6) =~= tail);
            assert(seq![c] + v.skip(1) =~= v);
        } else {
            assert(json_plain(c));
            assert(s[0] == c);
            assert(s.skip(1) =~= tail);
            assert(seq![c] + v.skip(1) =~= v);
        }
    }
}

/// Reading a member written as `"name":"value"` (the name plain, the value
/// escaped) recovers both.
pub proof fn lemma_parse_member(name: Seq<char>, value: Seq<char>, rest: Seq<char>)
    requires
        forall|i: int| 0 <= i < name.len() ==> json_plain(#[trigger] name[i]),
    ensures
        parse_member(
            seq!['"'] + name + seq!['"', ':', '"'] + json_escape(value) + seq!['"'] + rest,
        ) == Some((name, value, name.len() + json_escape(value).len() + 5int)),
{
    let s = seq!['"'] + name + seq!['"', ':', '"'] + json_escape(value) + seq!['"'] + rest;
    assert(s[0] == '"');
    assert(s.skip(1) =~= name + seq!['"'] + (seq![':', '"'] + json_escape(value) + seq!['"']
        + rest));
    lemma_scan_plain(name, seq![':', '"'] + json_escape(value) + seq!['"'] + rest);
    let n: int = name.len() as int + 1;
    assert(scan_string(s.skip(1)) == Some((name, n)));
    let r = s.skip(1 + n);
    assert(r =~= seq![':', '"'] + json_escape(value) + seq!['"'] + rest);
    assert(r[0] == ':' && r[1] == '"');
    assert(r.skip(2) =~= json_escape(value) + seq!['"'] + rest);
    lemma_scan_escaped(value, rest);
    assert(scan_string(r.skip(2)) == Some((value, json_escape(value).len() as int + 1)));
}

/// Relies on std's `String::push`: appends exactly one character.
#[verifier::external_body]
pub fn push_char(out: &mut String, c: char)
    ensures
        final(out)@ == old(out)@ + seq![c],
{
    out.push(c);
}

/// Lowercase hex digit of a value below 16.
fn hex_char_exec(d: u8) -> (r: char)
    requires
        d < 16,
    ensures
        r == hex_char(d as int),
{
    if d < 10 {
        (48 + d) as char
    } else {
        (87 + d) as char
    }
}

/// Appends `json_escape(s@)` to `out`.
pub fn append_escaped(out: &mut String, s: &str)
    ensures
        final(out)@ == old(out)@ + json_escape(s@),
{
    let n = s.unicode_len();
    let mut i: usize = 0;
    while i < n
        invariant
            n == s@.len(),
            i <= n,
            out@ == old(out)@ + json_escape(s@.take(i as int)),
        decreases n - i,
    {
        let c = s.get_char(i);
        proof {
            assert(s@.take(i + 1) =~= s@.take(i as int) + seq![s@[i as int]]);
            lemma_json_escape_append(s@.take(i as int), seq![c]);
            assert(seq![c].skip(1) =~= Seq::<char>::empty());
            assert(json_escape(seq![c].skip(1)) =~= Seq::<char>::empty());
            assert(json_escape(seq![c]) =~= json_escape_char(c));
        }
        if c == '"' {
            out.append("\\\"");
            proof {
                reveal_strlit("\\\"");
                assert(json_escape_char(c) =~= "\\\""@);
            }
        } else if c == '\\' {
            out.append("\\\\");
            proof {
                reveal_strlit("\\\\");
                assert(json_escape_char(c) =~= "\\\\"@);
            }
        } else if c == '\u{8}' {
            out.append("\\b");
            proof {
                reveal_strlit("\\b");
                assert(json_escape_char(c) =~= "\\b"@);
            }
        } else if c == '\t' {
            out.append("\\t");
            proof {
                reveal_strlit("\\t");
                assert(json_escape_char(c) =~= "\\t"@);
            }
        } else if c == '\n' {
            out.append("\\n");
            proof {
                reveal_strlit("\\n");
                assert(json_escape_char(c) =~= "\\n"@);
            }
        } else if c == '\u{c}' {
            out.append("\\f");
            proof {
                reveal_strlit("\\f");
                assert(json_escape_char(c) =~= "\\f"@);
            }
        } else if c == '\r' {
            out.append("\\r");
            proof {
                reveal_strlit("\\r");
                assert(json_escape_char(c) =~= "\\r"@);
            }
        } else if (c as u32) < 32 {
            out.append("\\u00");
            let v = c as u32;
            push_char(out, hex_char_exec((v / 16) as u8));
            push_char(out, hex_char_exec((v % 16) as u8));
            proof {
                reveal_strlit("\\u00");
                assert(json_escape_char(c) =~= "\\u00"@ + seq![
                    hex_char(c as int / 16),
                    hex_char(c as int % 16),
                ]);
                assert(out@ =~= old(out)@ + json_escape(s@.take(i as int))
                    + json_escape_char(c));
            }
        } else {
            push_char(out, c);
            proof {
                assert(json_escape_char(c) =~= seq![c]);
            }
        }
        proof {
            assert(out@ =~= old(out)@ + json_escape(s@.take(i + 1)));
        }
        i = i + 1;
    }
    proof {
        assert(s@.take(n as int) =~= s@);
    }
}

} // verus!
