//! Settings read from command-line style arguments.

use vstd::prelude::*;
use crate::fit::Size;
use crate::text::{opt_view, same_chars};
use crate::theming::{anchor_named, parse_anchor, parse_theme, theme_named, NumberingAnchor, Theme};

verus! {

/// Largest virtual resolution accepted, in each dimension.
pub const MAX_RESOLUTION: u32 = 3840;

/// How textures are sampled when scaled.
#[derive(Clone, Copy, Debug, PartialEq, Eq, Structural)]
pub enum Filtering {
    Nearest,
    Linear,
}

/// Settings, each `None` where no argument gave it.
pub struct Config {
    pub theme: Option<Theme>,
    pub filtering: Option<Filtering>,
    pub font_path: Option<String>,
    pub virtual_resolution: Option<Size>,
    pub numbering: Option<bool>,
    pub preview: Option<bool>,
    pub numbering_anchor: Option<NumberingAnchor>,
}

/// The value of a string of decimal digits, left to right.
pub open spec fn digits_value(s: Seq<char>) -> int
    decreases s.len(),
{
    if s.len() == 0 {
        0
    } else {
        10 * digits_value(s.drop_last()) + (s.last() as u32 - '0' as u32)
    }
}

pub open spec fn all_digits(s: Seq<char>) -> bool {
    forall|i: int| 0 <= i < s.len() ==> '0' <= #[trigger] s[i] && s[i] <= '9'
}

/// A number written in decimal digits, at most `MAX_RESOLUTION`.
pub open spec fn dimension(s: Seq<char>) -> Option<u32> {
    if s.len() > 0 && all_digits(s) && digits_value(s) <= MAX_RESOLUTION {
        Some(digits_value(s) as u32)
    } else {
        None
    }
}

/// Index of the first `c` in `s` at or after `i`, or `s.len()`.
pub open spec fn find(s: Seq<char>, c: char, i: int) -> int
    decreases s.len() - i,
{
    if 0 <= i < s.len() && s[i] != c {
        find(s, c, i + 1)
    } else {
        i
    }
}

/// A resolution written `<width>x<height>`, each in decimal digits and at
/// most `MAX_RESOLUTION`.
pub open spec fn resolution_named(s: Seq<char>) -> Option<Size> {
    let k = find(s, 'x', 0);
    if k >= s.len() {
        None
    } else {
        match (dimension(s.take(k)), dimension(s.skip(k + 1))) {
            (Some(w), Some(h)) => Some(Size { width: w, height: h }),
            _ => None,
        }
    }
}

proof fn lemma_value_grows(s: Seq<char>, i: int)
    requires
        0 <= i <= s.len(),
        all_digits(s),
    ensures
        digits_value(s) >= digits_value(s.take(i)),
        digits_value(s) >= 0,
    decreases s.len(),
{
    if s.len() > 0 {
        let t = s.drop_last();
        assert(all_digits(t)) by {
            assert forall|j: int| 0 <= j < t.len() implies '0' <= #[trigger] t[j] && t[j] <= '9' by {
                assert(t[j] == s[j]);
            }
        }
        assert('0' <= s[s.len() - 1]);
        if i == s.len() {
            assert(s.take(i) =~= s);
            lemma_value_grows(t, 0);
        } else {
            assert(t.take(i) =~= s.take(i));
            lemma_value_grows(t, i);
        }
    }
}

fn parse_dimension(v: &Vec<char>, a: usize, b: usize) -> (r: Option<u32>)
    requires
        a <= b <= v@.len(),
    ensures
        r == dimension(v@.subrange(a as int, b as int)),
{
    let ghost s = v@.subrange(a as int, b as int);
    if a == b {
        return None;
    }
    let mut value: u32 = 0;
    let mut i: usize = a;
    while i < b
        invariant
            s == v@.subrange(a as int, b as int),
            a <= i <= b <= v@.len(),
            all_digits(s.take(i - a)),
            value == digits_value(s.take(i - a)),
            value <= MAX_RESOLUTION,
        decreases b - i,
    {
        let c = v[i];
        assert(s.take(i - a + 1).drop_last() =~= s.take(i - a));
        if !('0' <= c && c <= '9') {
            assert(!all_digits(s) || s.len() == 0) by {
                assert(s[i - a] == c);
            }
            return None;
        }
        let next = 10 * value + (c as u32 - '0' as u32);
        if next > MAX_RESOLUTION {
            proof {
                if all_digits(s) {
                    lemma_value_grows(s, i - a + 1);
                }
            }
            return None;
        }
        value = next;
        i += 1;
        assert(all_digits(s.take(i - a))) by {
            assert forall|j: int| 0 <= j < s.take(i - a).len() implies '0' <= #[trigger] s.take(
                i - a,
            )[j] && s.take(i - a)[j] <= '9' by {
                if j < i - a - 1 {
                    assert(s.take(i - a)[j] == s.take(i - a - 1)[j]);
                }
            }
        }
    }
    assert(s.take(b - a) =~= s);
    Some(value)
}

/// Reads a resolution written `<width>x<height>`.
pub fn parse_resolution(s: &str) -> (r: Option<Size>)
    ensures
        r == resolution_named(s@),
{
    let v = crate::text::chars_of(s);
    let mut k: usize = 0;
    while k < v.len() && v[k] != 'x'
        invariant
            v@ == s@,
            0 <= k <= v@.len(),
            find(s@, 'x', k as int) == find(s@, 'x', 0),
        decreases v.len() - k,
    {
        k += 1;
    }
    if k == v.len() {
        return None;
    }
    let n = v.len();
    assert(v@.subrange(0, k as int) =~= s@.take(k as int));
    assert(v@.subrange(k + 1, n as int) =~= s@.skip(k + 1));
    match (parse_dimension(&v, 0, k), parse_dimension(&v, k + 1, n)) {
        (Some(w), Some(h)) => Some(Size { width: w, height: h }),
        _ => None,
    }
}


/// An argument that is one of a flag's two spellings.
pub open spec fn is_flag(a: Seq<char>, short: Seq<char>, long: Seq<char>) -> bool {
    a == short || a == long
}

/// The argument after the `i`-th, if there is one.
pub open spec fn next_arg(args: Seq<Seq<char>>, i: int) -> Option<Seq<char>> {
    if i + 1 < args.len() {
        Some(args[i + 1])
    } else {
        None
    }
}

/// What the last of the first `n` arguments that gives a setting gives, as
/// `pick` reads the argument at each position.
pub open spec fn last_setting<T>(
    args: Seq<Seq<char>>,
    n: int,
    pick: spec_fn(Seq<Seq<char>>, int) -> Option<T>,
) -> Option<T>
    decreases n,
{
    if n <= 0 {
        None
    } else {
        match pick(args, n - 1) {
            Some(v) => Some(v),
            None => last_setting(args, n - 1, pick),
        }
    }
}

/// `-t` or `--theme`, then a theme that `theme_named` reads.
pub open spec fn theme_at(args: Seq<Seq<char>>, i: int) -> Option<Theme> {
    if is_flag(args[i], "-t"@, "--theme"@) {
        match next_arg(args, i) {
            Some(v) => theme_named(v),
            None => None,
        }
    } else {
        None
    }
}

/// `-l` or `--linear`: linear filtering.
pub open spec fn filtering_at(args: Seq<Seq<char>>, i: int) -> Option<Filtering> {
    if is_flag(args[i], "-l"@, "--linear"@) {
        Some(Filtering::Linear)
    } else {
        None
    }
}

/// `-f` or `--font`, then the path of a font file.
pub open spec fn font_at(args: Seq<Seq<char>>, i: int) -> Option<Seq<char>> {
    if is_flag(args[i], "-f"@, "--font"@) {
        next_arg(args, i)
    } else {
        None
    }
}

/// `-r` or `--resolution`, then a resolution that `resolution_named` reads.
pub open spec fn resolution_at(args: Seq<Seq<char>>, i: int) -> Option<Size> {
    if is_flag(args[i], "-r"@, "--resolution"@) {
        match next_arg(args, i) {
            Some(v) => resolution_named(v),
            None => None,
        }
    } else {
        None
    }
}

/// `-n` or `--numbering`: show slide numbers.
pub open spec fn numbering_at(args: Seq<Seq<char>>, i: int) -> Option<bool> {
    if is_flag(args[i], "-n"@, "--numbering"@) {
        Some(true)
    } else {
        None
    }
}

/// `-p` or `--preview`: show the next slide on the console.
pub open spec fn preview_at(args: Seq<Seq<char>>, i: int) -> Option<bool> {
    if is_flag(args[i], "-p"@, "--preview"@) {
        Some(true)
    } else {
        None
    }
}

/// `-a` or `--numbering_anchor`, then an anchor that `anchor_named` reads.
pub open spec fn anchor_at(args: Seq<Seq<char>>, i: int) -> Option<NumberingAnchor> {
    if is_flag(args[i], "-a"@, "--numbering_anchor"@) {
        match next_arg(args, i) {
            Some(v) => anchor_named(v),
            None => None,
        }
    } else {
        None
    }
}

fn flag(a: &str, short: &str, long: &str) -> (r: bool)
    ensures
        r == is_flag(a@, short@, long@),
{
    same_chars(a, short) || same_chars(a, long)
}

impl Config {
    /// The settings that `args` give, read left to right; where an argument
    /// gives a setting again, the last one counts, and a flag whose value
    /// cannot be read is passed over.
    pub fn from_args(args: &Vec<String>) -> (r: Config)
        ensures
            r.theme == last_setting(args.deep_view(), args@.len() as int, |a, i| theme_at(a, i)),
            r.filtering == last_setting(
                args.deep_view(),
                args@.len() as int,
                |a, i| filtering_at(a, i),
            ),
            opt_view(r.font_path) == last_setting(
                args.deep_view(),
                args@.len() as int,
                |a, i| font_at(a, i),
            ),
            r.virtual_resolution == last_setting(
                args.deep_view(),
                args@.len() as int,
                |a, i| resolution_at(a, i),
            ),
            r.numbering == last_setting(
                args.deep_view(),
                args@.len() as int,
                |a, i| numbering_at(a, i),
            ),
            r.preview == last_setting(args.deep_view(), args@.len() as int, |a, i| preview_at(a, i)),
            r.numbering_anchor == last_setting(
                args.deep_view(),
                args@.len() as int,
                |a, i| anchor_at(a, i),
            ),
    {
        let ghost av = args.deep_view();
        let mut c = Config {
            theme: None,
            filtering: None,
            font_path: None,
            virtual_resolution: None,
            numbering: None,
            preview: None,
            numbering_anchor: None,
        };
        let n = args.len();
        let mut i: usize = 0;
        while i < n
            invariant
                av == args.deep_view(),
                n == args@.len(),
                0 <= i <= n,
                c.theme == last_setting(av, i as int, |a, i| theme_at(a, i)),
                c.filtering == last_setting(av, i as int, |a, i| filtering_at(a, i)),
                opt_view(c.font_path) == last_setting(av, i as int, |a, i| font_at(a, i)),
                c.virtual_resolution == last_setting(av, i as int, |a, i| resolution_at(a, i)),
                c.numbering == last_setting(av, i as int, |a, i| numbering_at(a, i)),
                c.preview == last_setting(av, i as int, |a, i| preview_at(a, i)),
                c.numbering_anchor == last_setting(av, i as int, |a, i| anchor_at(a, i)),
            decreases n - i,
        {
            let a = args[i].as_str();
            assert(av[i as int] == args@[i as int]@);
            let has_next = i + 1 < n;
            if has_next {
                assert(av[i + 1] == args@[i + 1]@);
            }
            if flag(a, "-t", "--theme") && has_next {
                match parse_theme(args[i + 1].as_str()) {
                    Some(t) => c.theme = Some(t),
                    None => {},
                }
            }
            if flag(a, "-l", "--linear") {
                c.filtering = Some(Filtering::Linear);
            }
            if flag(a, "-f", "--font") && has_next {
                c.font_path = Some(args[i + 1].clone());
            }
            if flag(a, "-r", "--resolution") && has_next {
                match parse_resolution(args[i + 1].as_str()) {
                    Some(s) => c.virtual_resolution = Some(s),
                    None => {},
                }
            }
            if flag(a, "-n", "--numbering") {
                c.numbering = Some(true);
            }
            if flag(a, "-p", "--preview") {
                c.preview = Some(true);
            }
            if flag(a, "-a", "--numbering_anchor") && has_next {
                match parse_anchor(args[i + 1].as_str()) {
                    Some(x) => c.numbering_anchor = Some(x),
                    None => {},
                }
            }
            i += 1;
        }
        c
    }
}

} // verus!
