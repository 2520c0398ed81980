//! The one decision in the clipboard fetch: whether a TARGETS listing offers
//! PNG image content. The process calls that obtain the listing stay outside
//! the library; this function makes the decision on the listing text.

use vstd::prelude::*;
use vstd::string::StrSliceExecFns;

verus! {

/// The clipboard target name of PNG image content.
pub open spec fn png_target() -> Seq<char> {
    seq!['i', 'm', 'a', 'g', 'e', '/', 'p', 'n', 'g']
}

/// A line of `s` starts at `i`: at the very beginning, or right after a
/// newline.
pub open spec fn line_starts_at(s: Seq<char>, i: int) -> bool {
    i == 0 || s[i - 1] == '\n'
}

/// A line's content ends at `j`: the string ends there, or a newline or a
/// carriage-return-newline pair follows — the endings `str::lines` splits at.
pub open spec fn line_ends_at(s: Seq<char>, j: int) -> bool {
    ||| j == s.len()
    ||| s[j] == '\n'
    ||| (s[j] == '\r' && j + 1 < s.len() && s[j + 1] == '\n')
}

/// The line of `s` starting at `i` is exactly `image/png`.
pub open spec fn png_line_at(s: Seq<char>, i: int) -> bool {
    &&& 0 <= i
    &&& i + 9 <= s.len()
    &&& line_starts_at(s, i)
    &&& line_ends_at(s, i + 9)
    &&& s.subrange(i, i + 9) == png_target()
}

/// Some line of `s` is exactly `image/png`.
pub open spec fn spec_offers_png(s: Seq<char>) -> bool {
    exists|i: int| png_line_at(s, i)
}

/// No character of the target is a line ending.
proof fn lemma_png_target_char(m: int)
    requires
        0 <= m < 9,
    ensures
        png_target()[m] != '\n',
        png_target()[m] != '\r',
{
    if m == 0 {
        assert(png_target()[0] == 'i');
    } else if m == 1 {
        assert(png_target()[1] == 'm');
    } else if m == 2 {
        assert(png_target()[2] == 'a');
    } else if m == 3 {
        assert(png_target()[3] == 'g');
    } else if m == 4 {
        assert(png_target()[4] == 'e');
    } else if m == 5 {
        assert(png_target()[5] == '/');
    } else if m == 6 {
        assert(png_target()[6] == 'p');
    } else if m == 7 {
        assert(png_target()[7] == 'n');
    } else {
        assert(png_target()[8] == 'g');
    }
}

/// Whether any line of `listing` — split as `str::lines` splits, at `\n` or
/// `\r\n` — is exactly `image/png`.
pub fn targets_include_png(listing: &str) -> (r: bool)
    ensures
        r == spec_offers_png(listing@),
{
    let target: &str = "image/png";
    proof {
        reveal_strlit("image/png");
        assert(target@ =~= png_target());
    }
    let n = listing.unicode_len();
    let mut start: usize = 0;
    while start < n
        invariant
            n == listing@.len(),
            target@ == png_target(),
            start <= n,
            start < n ==> line_starts_at(listing@, start as int),
            forall|i: int| 0 <= i < start ==> !png_line_at(listing@, i),
        decreases n - start,
    {
        // The raw extent of this line: up to the first newline, or the end.
        let mut e: usize = start;
        while e < n && listing.get_char(e) != '\n'
            invariant
                n == listing@.len(),
                start <= e <= n,
                forall|k: int| start <= k < e ==> listing@[k] != '\n',
            decreases n - e,
        {
            e += 1;
        }
        // One carriage return before the newline belongs to the ending.
        let end: usize = if e > start && e < n && listing.get_char(e - 1) == '\r' {
            e - 1
        } else {
            e
        };
        let mut line_matches = false;
        if end - start == 9 {
            let mut all_eq = true;
            let mut k: usize = 0;
            while k < 9
                invariant
                    n == listing@.len(),
                    target@ == png_target(),
                    start + 9 <= n,
                    k <= 9,
                    all_eq <==> (forall|m: int|
                        0 <= m < k ==> listing@[start + m] == png_target()[m]),
                decreases 9 - k,
            {
                let c = listing.get_char(start + k);
                let t = target.get_char(k);
                all_eq = all_eq && c == t;
                k += 1;
            }
            line_matches = all_eq;
        }
        proof {
            assert(line_matches <==> (end - start == 9 && forall|m: int|
                0 <= m < 9 ==> listing@[start + m] == png_target()[m]));
        }
        if line_matches {
            proof {
                assert(listing@.subrange(start as int, start as int + 9) =~= png_target());
                assert(line_ends_at(listing@, start as int + 9)) by {
                    if end < e {
                        assert(listing@[end as int] == '\r');
                        assert(listing@[e as int] == '\n');
                    }
                }
                assert(png_line_at(listing@, start as int));
            }
            return true;
        }
        // No `image/png` line starts anywhere in [start, e].
        proof {
            assert forall|i: int| start <= i <= e implies !png_line_at(listing@, i) by {
                if i > start {
                    assert(listing@[i - 1] != '\n');
                } else if png_line_at(listing@, start as int) {
                    assert forall|m: int| 0 <= m < 9 implies listing@[start + m] == png_target()[m] by {
                        assert(listing@.subrange(start as int, start as int + 9)[m] == listing@[
                            start + m
                        ]);
                    }
                    // The raw line reaches at least past the target: none of
                    // its characters is a newline.
                    assert(e >= start + 9) by {
                        if e < start + 9 {
                            assert(e < n);
                            assert(listing@[e as int] == '\n');
                            lemma_png_target_char(e - start);
                            assert(listing@[e as int] == png_target()[e - start]);
                            assert(false);
                        }
                    }
                    // Whatever the line ending, the content ends exactly at
                    // start + 9, so the equality check above ran and agreed.
                    let j = start as int + 9;
                    if j == n {
                        assert(e == start + 9);
                        assert(end == start + 9);
                    } else if listing@[j] == '\n' {
                        assert(e <= start + 9);
                        assert(e == start + 9);
                        lemma_png_target_char(8);
                        assert(listing@[e - 1] == png_target()[8]);
                        assert(end == start + 9);
                    } else {
                        assert(listing@[j] == '\r' && j + 1 < n && listing@[j + 1] == '\n');
                        assert(e <= j + 1);
                        assert(e != j);
                        assert(e == j + 1);
                        assert(listing@[e - 1] == '\r');
                        assert(end == start + 9);
                    }
                    assert(line_matches);
                    assert(false);
                }
            }
        }
        if e == n {
            proof {
                assert forall|i: int| !png_line_at(listing@, i) by {
                    if png_line_at(listing@, i) {
                        assert(0 <= i && i + 9 <= n);
                        assert(i <= e);
                    }
                }
            }
            return false;
        }
        start = e + 1;
    }
    proof {
        assert forall|i: int| !png_line_at(listing@, i) by {
            if png_line_at(listing@, i) {
                assert(0 <= i && i + 9 <= n);
                assert(i < start);
            }
        }
    }
    false
}

} // verus!
