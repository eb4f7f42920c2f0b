//! Template normalization. In a rename template a numbered backreference
//! is the `$` sign followed by the longest run of digits, and what follows
//! the run is literal text: `$1_$4` means group 1, `_`, group 4. The regex
//! engine that performs the substitution instead reads `$1_` as a reference
//! named `1_`. Normalizing every `$digits` reference into the braced form
//! `${digits}` — leaving `$$` escapes, named references, and already-braced
//! references untouched — makes the engine read the template exactly as
//! this crate defines it.

use vstd::prelude::*;

verus! {

/// `c` is a decimal digit.
pub open spec fn is_digit_spec(c: char) -> bool {
    c == '0' || c == '1' || c == '2' || c == '3' || c == '4' || c == '5' || c == '6' || c == '7'
        || c == '8' || c == '9'
}

/// Decide whether `c` is a decimal digit.
pub fn is_digit(c: char) -> (r: bool)
    ensures
        r == is_digit_spec(c),
{
    c == '0' || c == '1' || c == '2' || c == '3' || c == '4' || c == '5' || c == '6' || c == '7'
        || c == '8' || c == '9'
}

/// The first position at or after `from` that does not hold a digit (or the
/// end of the text).
pub open spec fn digit_run_end(s: Seq<char>, from: int) -> int
    decreases s.len() - from,
{
    if from < 0 || from >= s.len() {
        from
    } else if !is_digit_spec(s[from]) {
        from
    } else {
        digit_run_end(s, from + 1)
    }
}

/// `digit_run_end` finds exactly the end of the digit run that starts at
/// `from`.
proof fn lemma_digit_run_end_at(s: Seq<char>, from: int, j: int)
    requires
        0 <= from <= j <= s.len(),
        forall|k: int| from <= k < j ==> is_digit_spec(s[k]),
        j == s.len() || !is_digit_spec(s[j]),
    ensures
        digit_run_end(s, from) == j,
    decreases j - from,
{
    if from < j {
        lemma_digit_run_end_at(s, from + 1, j);
    }
}

/// The template with every `$digits` reference rewritten into the braced
/// form `${digits}`; `$$` escapes and all other text stay as they are.
pub open spec fn normalize_template_spec(tmpl: Seq<char>) -> Seq<char>
    decreases tmpl.len(),
{
    if tmpl.len() == 0 {
        Seq::<char>::empty()
    } else if tmpl[0] == '$' && tmpl.len() >= 2 && tmpl[1] == '$' {
        seq!['$', '$'] + normalize_template_spec(tmpl.skip(2))
    } else if tmpl[0] == '$' && tmpl.len() >= 2 && is_digit_spec(tmpl[1]) {
        let found = digit_run_end(tmpl, 1);
        let end = if found < 2 {
            2
        } else if found > tmpl.len() {
            tmpl.len() as int
        } else {
            found
        };
        seq!['$', '{'] + tmpl.subrange(1, end) + seq!['}'] + normalize_template_spec(
            tmpl.skip(end),
        )
    } else {
        seq![tmpl[0]] + normalize_template_spec(tmpl.skip(1))
    }
}

/// Rewrite every `$digits` backreference of the template into the braced
/// form `${digits}`.
pub fn normalize_template(template: &str) -> (r: String)
    ensures
        r@ == normalize_template_spec(template@),
{
    let n: usize = template.unicode_len();
    let mut out: String = String::new();
    let mut i: usize = 0;
    proof {
        assert(template@.skip(0) =~= template@);
    }
    while i < n
        invariant
            i <= n,
            n == template@.len(),
            normalize_template_spec(template@) == out@ + normalize_template_spec(
                template@.skip(i as int),
            ),
        decreases n - i,
    {
        let ghost suffix = template@.skip(i as int);
        proof {
            assert(suffix[0] == template@[i as int]);
        }
        let c = template.get_char(i);
        if c == '$' && i + 1 < n && template.get_char(i + 1) == '$' {
            proof {
                assert(suffix.len() >= 2 && suffix[1] == template@[i + 1]);
            }
            out.append("$$");
            proof {
                reveal_strlit("$$");
                assert("$$"@ =~= seq!['$', '$']);
                assert(suffix.skip(2) =~= template@.skip(i + 2));
            }
            i += 2;
        } else if c == '$' && i + 1 < n && is_digit(template.get_char(i + 1)) {
            proof {
                assert(suffix.len() >= 2 && suffix[1] == template@[i + 1]);
            }
            let mut j: usize = i + 1;
            while j < n && is_digit(template.get_char(j))
                invariant
                    i + 1 <= j <= n,
                    n == template@.len(),
                    forall|k: int| i + 1 <= k < j ==> is_digit_spec(template@[k]),
                decreases n - j,
            {
                j += 1;
            }
            proof {
                lemma_digit_run_end_at(suffix, 1, j - i);
                assert forall|k: int| 1 <= k < j - i implies is_digit_spec(suffix[k]) by {
                    assert(suffix[k] == template@[i + k]);
                }
                if (j as int) < n {
                    assert(suffix[j - i] == template@[j as int]);
                }
            }
            out.append("${");
            let digits = template.substring_char(i + 1, j);
            out.append(digits);
            out.append("}");
            proof {
                reveal_strlit("${");
                reveal_strlit("}");
                assert("${"@ =~= seq!['$', '{']);
                assert("}"@ =~= seq!['}']);
                assert(digits@ =~= suffix.subrange(1, j - i));
                assert(suffix.skip(j - i) =~= template@.skip(j as int));
            }
            i = j;
        } else {
            let piece = template.substring_char(i, i + 1);
            out.append(piece);
            proof {
                assert(piece@ =~= seq![template@[i as int]]);
                assert(suffix.skip(1) =~= template@.skip(i + 1));
            }
            i += 1;
        }
        proof {
            assert(normalize_template_spec(template@) == out@ + normalize_template_spec(
                template@.skip(i as int),
            ));
        }
    }
    proof {
        assert(template@.skip(n as int) =~= Seq::<char>::empty());
        assert(out@ =~= normalize_template_spec(template@));
    }
    out
}

} // verus!
