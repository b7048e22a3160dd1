//! What the installer and the first-run setup compute: file locations, the
//! autostart and desktop entries, the GNOME custom keybinding list, the shortcut
//! and command-line choices.
use vstd::prelude::*;

use crate::text::{
    chars_of, parse_unsigned, parse_usize, push_chars, push_str, str_eq, string_from_chars,
    trim, trim_chars, nat_decimal, decimal_chars, sub_chars,
};

verus! {

/// The home directory assumed when `HOME` is not set.
pub const FALLBACK_HOME: &'static str = "/home/atharva";

/// The shortcut registered when none is given.
pub const DEFAULT_SHORTCUT: &'static str = "<Alt>space";

/// `part` appended to the path `base` as `PathBuf::push` does it: an absolute part
/// replaces the path, an empty path takes the part as it is, and otherwise a `/`
/// separates them unless the path already ends with one.
pub open spec fn join_path(base: Seq<char>, part: Seq<char>) -> Seq<char> {
    if part.len() > 0 && part[0] == '/' {
        part
    } else if base.len() == 0 {
        part
    } else if base.last() == '/' {
        base + part
    } else {
        base + seq!['/'] + part
    }
}

/// The path `base` joined with `part`.
pub fn join_path_str(base: &str, part: &str) -> (r: String)
    ensures
        r@ == join_path(base@, part@),
{
    let b = chars_of(base);
    let p = chars_of(part);
    if p.len() > 0 && p[0] == '/' {
        return string_from_chars(&p);
    }
    let mut out = b;
    if out.len() > 0 && out[out.len() - 1] != '/' {
        out.push('/');
    }
    push_chars(&mut out, &p);
    assert(out@ =~= join_path(base@, part@));
    string_from_chars(&out)
}

/// The directory the installer puts the binary in: `~/.local/bin` under `home`.
pub fn local_bin(home: &str) -> (r: String)
    ensures
        r@ == join_path(join_path(home@, ".local"@), "bin"@),
{
    let a = join_path_str(home, ".local");
    join_path_str(a.as_str(), "bin")
}

/// The home directory to use: `home` when it is set, the fallback otherwise.
pub open spec fn home_or_fallback(home: Option<Seq<char>>) -> Seq<char> {
    match home {
        Some(h) => h,
        None => FALLBACK_HOME@,
    }
}

/// The launcher's configuration directory, `~/.config/spear`.
pub open spec fn spear_config_dir(home: Seq<char>) -> Seq<char> {
    join_path(join_path(home, ".config"@), "spear"@)
}

/// The launcher's configuration directory under `home`.
pub fn config_dir(home: &str) -> (r: String)
    ensures
        r@ == spear_config_dir(home@),
{
    let a = join_path_str(home, ".config");
    join_path_str(a.as_str(), "spear")
}

/// The file that holds the launch history: `~/.config/spear/frecency.json`, under
/// the fallback home when `HOME` is not set.
pub fn frecency_file_path(home: Option<&str>) -> (r: String)
    ensures
        r@ == join_path(
            spear_config_dir(
                home_or_fallback(
                    match home {
                        Some(h) => Some(h@),
                        None => None,
                    },
                ),
            ),
            "frecency.json"@,
        ),
{
    let dir = match home {
        Some(h) => config_dir(h),
        None => config_dir(FALLBACK_HOME),
    };
    join_path_str(dir.as_str(), "frecency.json")
}

/// The file that defines the custom theme `theme_name`:
/// `~/.config/spear/themes/<theme_name>.json`.
pub fn theme_file_path(home: &str, theme_name: &str) -> (r: String)
    ensures
        r@ == join_path(join_path(spear_config_dir(home@), "themes"@), theme_name@ + ".json"@),
{
    let dir = config_dir(home);
    let themes = join_path_str(dir.as_str(), "themes");
    let mut file = String::from_str(theme_name);
    file.append(".json");
    join_path_str(themes.as_str(), file.as_str())
}

/// The autostart entry that starts the launcher daemon at login, running
/// `binary` and showing `icon`.
pub open spec fn autostart_text(binary: Seq<char>, icon: Seq<char>) -> Seq<char> {
    "[Desktop Entry]\nName=Spear Daemon\nComment=Start Spear launcher daemon in background\nExec=bash -c \""@
        + binary + " --quit ; "@ + binary + "\"\nIcon="@ + icon
        + "\nTerminal=false\nType=Application\nCategories=Utility;\nStartupNotify=false\nX-GNOME-Autostart-enabled=true\n"@
}

/// The autostart entry for `binary` with icon `icon`: it quits any running daemon
/// and starts a new one.
pub fn autostart_entry(binary: &str, icon: &str) -> (r: String)
    ensures
        r@ == autostart_text(binary@, icon@),
{
    let mut s = String::from_str(
        "[Desktop Entry]\nName=Spear Daemon\nComment=Start Spear launcher daemon in background\nExec=bash -c \"",
    );
    s.append(binary);
    s.append(" --quit ; ");
    s.append(binary);
    s.append("\"\nIcon=");
    s.append(icon);
    s.append(
        "\nTerminal=false\nType=Application\nCategories=Utility;\nStartupNotify=false\nX-GNOME-Autostart-enabled=true\n",
    );
    s
}

/// `s` with every occurrence of the non-empty `pat`, taken from left to right
/// without overlap, replaced by `rep` (`str::replace`).
pub open spec fn replace_all(s: Seq<char>, pat: Seq<char>, rep: Seq<char>) -> Seq<char>
    decreases s.len(),
{
    if pat.len() == 0 || s.len() < pat.len() {
        s
    } else if pat.is_prefix_of(s) {
        rep + replace_all(s.skip(pat.len() as int), pat, rep)
    } else {
        seq![s[0]] + replace_all(s.drop_first(), pat, rep)
    }
}

/// Whether `pat` occurs in `s` at position `i`.
fn occurs_at(s: &Vec<char>, pat: &Vec<char>, i: usize) -> (r: bool)
    requires
        i <= s@.len(),
    ensures
        r == pat@.is_prefix_of(s@.skip(i as int)),
{
    if pat.len() > s.len() - i {
        return false;
    }
    let mut j: usize = 0;
    while j < pat.len()
        invariant
            i + pat.len() <= s.len(),
            j <= pat@.len(),
            forall|k: int| 0 <= k < j ==> s@[i + k] == pat@[k],
        decreases pat@.len() - j,
    {
        if s[i + j] != pat[j] {
            assert(s@.skip(i as int).take(pat@.len() as int)[j as int] != pat@[j as int]);
            return false;
        }
        j = j + 1;
    }
    assert(s@.skip(i as int).take(pat@.len() as int) =~= pat@);
    true
}

/// The characters `s` with every occurrence of the non-empty `pat` replaced by
/// `rep`.
pub fn replace_all_chars(s: &Vec<char>, pat: &Vec<char>, rep: &Vec<char>) -> (r: Vec<char>)
    ensures
        r@ == replace_all(s@, pat@, rep@),
{
    let mut out: Vec<char> = Vec::new();
    let mut i: usize = 0;
    assert(s@.skip(0) =~= s@);
    while i < s.len()
        invariant
            i <= s@.len(),
            replace_all(s@, pat@, rep@) == out@ + replace_all(s@.skip(i as int), pat@, rep@),
        decreases s@.len() - i,
    {
        let ghost rest = s@.skip(i as int);
        if pat.len() > 0 && pat.len() <= s.len() - i && occurs_at(s, pat, i) {
            push_chars(&mut out, rep);
            assert(rest.skip(pat@.len() as int) =~= s@.skip(i + pat@.len()));
            i = i + pat.len();
        } else {
            if pat.len() > 0 && pat.len() <= s.len() - i {
                assert(!pat@.is_prefix_of(rest));
            }
            let ghost before = out@;
            out.push(s[i]);
            if pat.len() == 0 || s.len() - i < pat.len() {
                assert(replace_all(rest, pat@, rep@) == rest);
                assert(rest.drop_first() =~= s@.skip(i + 1));
                proof {
                    lemma_replace_all_short(s@.skip(i + 1), pat@, rep@);
                }
                assert(rest =~= seq![s@[i as int]] + s@.skip(i + 1));
                assert(out@ + replace_all(s@.skip(i + 1), pat@, rep@) =~= before + rest);
            } else {
                assert(rest.drop_first() =~= s@.skip(i + 1));
                assert(out@ =~= before + seq![rest[0]]);
            }
            i = i + 1;
        }
    }
    assert(s@.skip(s@.len() as int) =~= Seq::<char>::empty());
    assert(out@ + Seq::<char>::empty() =~= out@);
    out
}

/// Replacing in a text shorter than the pattern, or with an empty pattern,
/// changes nothing.
proof fn lemma_replace_all_short(s: Seq<char>, pat: Seq<char>, rep: Seq<char>)
    requires
        pat.len() == 0 || s.len() < pat.len(),
    ensures
        replace_all(s, pat, rep) == s,
{
}

/// The desktop entry with its `Exec=spear` line pointing at `binary`.
pub open spec fn desktop_entry_text(content: Seq<char>, binary: Seq<char>) -> Seq<char> {
    replace_all(content, "Exec=spear\n"@, "Exec="@ + binary + "\n"@)
}

/// The desktop entry `content` with every `Exec=spear` line pointing at `binary`.
pub fn desktop_entry_with_binary(content: &str, binary: &str) -> (r: String)
    ensures
        r@ == desktop_entry_text(content@, binary@),
{
    let s = chars_of(content);
    let pat = chars_of("Exec=spear\n");
    let mut rep = chars_of("Exec=");
    push_str(&mut rep, binary);
    push_str(&mut rep, "\n");
    let out = replace_all_chars(&s, &pat, &rep);
    string_from_chars(&out)
}

/// `s` without the characters of `set` at its start.
pub open spec fn trim_start_set(s: Seq<char>, set: Seq<char>) -> Seq<char>
    decreases s.len(),
{
    if s.len() > 0 && set.contains(s[0]) {
        trim_start_set(s.drop_first(), set)
    } else {
        s
    }
}

/// `s` without the characters of `set` at its end.
pub open spec fn trim_end_set(s: Seq<char>, set: Seq<char>) -> Seq<char>
    decreases s.len(),
{
    if s.len() > 0 && set.contains(s.last()) {
        trim_end_set(s.drop_last(), set)
    } else {
        s
    }
}

/// `s` without the characters of `set` at either end (`str::trim_matches`).
pub open spec fn trim_set(s: Seq<char>, set: Seq<char>) -> Seq<char> {
    trim_end_set(trim_start_set(s, set), set)
}

/// Whether `c` is one of `set`.
fn in_set(c: char, set: &Vec<char>) -> (r: bool)
    ensures
        r == set@.contains(c),
{
    let mut i: usize = 0;
    while i < set.len()
        invariant
            i <= set@.len(),
            forall|k: int| 0 <= k < i ==> set@[k] != c,
        decreases set@.len() - i,
    {
        if set[i] == c {
            assert(set@[i as int] == c);
            return true;
        }
        i = i + 1;
    }
    false
}

/// The characters `s` without the characters of `set` at its end.
pub fn trim_end_set_chars(s: &Vec<char>, set: &Vec<char>) -> (r: Vec<char>)
    ensures
        r@ == trim_end_set(s@, set@),
{
    let mut b: usize = s.len();
    assert(s@.subrange(0, s@.len() as int) =~= s@);
    while b > 0 && in_set(s[b - 1], set)
        invariant
            b <= s@.len(),
            trim_end_set(s@, set@) == trim_end_set(s@.subrange(0, b as int), set@),
        decreases b,
    {
        assert(s@.subrange(0, b as int).drop_last() =~= s@.subrange(0, b - 1));
        b = b - 1;
    }
    sub_chars(s, 0, b)
}

/// The characters `s` without the characters of `set` at either end.
pub fn trim_set_chars(s: &Vec<char>, set: &Vec<char>) -> (r: Vec<char>)
    ensures
        r@ == trim_set(s@, set@),
{
    let n = s.len();
    let mut a: usize = 0;
    assert(s@.subrange(0, n as int) =~= s@);
    while a < n && in_set(s[a], set)
        invariant
            n == s@.len(),
            a <= n,
            trim_start_set(s@, set@) == trim_start_set(s@.subrange(a as int, n as int), set@),
        decreases n - a,
    {
        assert(s@.subrange(a as int, n as int).drop_first() =~= s@.subrange(a + 1, n as int));
        a = a + 1;
    }
    let front = sub_chars(s, a, n);
    trim_end_set_chars(&front, set)
}

/// The pieces of `s` between the separators `sep` (`str::split` with a
/// character): one more piece than there are separators.
pub open spec fn split_on(s: Seq<char>, sep: char) -> Seq<Seq<char>>
    decreases s.len(),
{
    if s.len() == 0 {
        seq![Seq::<char>::empty()]
    } else {
        let prev = split_on(s.drop_last(), sep);
        if s.last() == sep {
            prev.push(Seq::empty())
        } else {
            prev.update(prev.len() - 1, prev.last().push(s.last()))
        }
    }
}

/// Splitting always gives at least one piece.
pub proof fn lemma_split_nonempty(s: Seq<char>, sep: char)
    ensures
        split_on(s, sep).len() >= 1,
    decreases s.len(),
{
    if s.len() > 0 {
        lemma_split_nonempty(s.drop_last(), sep);
    }
}

/// The views of a list of character runs.
pub open spec fn char_runs(v: Seq<Vec<char>>) -> Seq<Seq<char>> {
    v.map_values(|r: Vec<char>| r@)
}

/// The pieces of `s` between the separators `sep`.
pub fn split_chars(s: &Vec<char>, sep: char) -> (r: Vec<Vec<char>>)
    ensures
        char_runs(r@) == split_on(s@, sep),
{
    let mut pieces: Vec<Vec<char>> = Vec::new();
    let mut cur: Vec<char> = Vec::new();
    let mut i: usize = 0;
    assert(s@.take(0) =~= Seq::<char>::empty());
    assert(char_runs(pieces@).push(cur@) =~= split_on(s@.take(0), sep));
    while i < s.len()
        invariant
            i <= s@.len(),
            char_runs(pieces@).push(cur@) == split_on(s@.take(i as int), sep),
        decreases s@.len() - i,
    {
        let c = s[i];
        let ghost prev = split_on(s@.take(i as int), sep);
        assert(s@.take(i + 1).drop_last() =~= s@.take(i as int));
        if c == sep {
            let done = cur;
            pieces.push(done);
            cur = Vec::new();
            assert(char_runs(pieces@).push(cur@) =~= prev.push(Seq::empty()));
        } else {
            cur.push(c);
            assert(char_runs(pieces@).push(cur@) =~= prev.update(
                prev.len() - 1,
                prev.last().push(c),
            ));
        }
        i = i + 1;
    }
    assert(s@.take(s@.len() as int) =~= s@);
    pieces.push(cur);
    pieces
}

/// The non-empty cleaned pieces: each piece trimmed of whitespace, then of quotes,
/// empty ones left out.
pub open spec fn clean_pieces(ps: Seq<Seq<char>>) -> Seq<Seq<char>>
    decreases ps.len(),
{
    if ps.len() == 0 {
        Seq::empty()
    } else {
        let earlier = clean_pieces(ps.drop_last());
        let c = trim_set(trim(ps.last()), seq!['\'']);
        if c.len() > 0 {
            earlier.push(c)
        } else {
            earlier
        }
    }
}

/// The custom keybinding paths listed in the output of
/// `gsettings get org.gnome.settings-daemon.plugins.media-keys custom-keybindings`:
/// none for an empty list, otherwise the quoted items between the brackets.
pub open spec fn keybinding_paths(output: Seq<char>) -> Seq<Seq<char>> {
    let existing = trim(output);
    if existing == "@as []"@ || existing == "[]"@ || existing.len() == 0 {
        Seq::empty()
    } else {
        clean_pieces(split_on(trim_set(existing, seq!['[', ']']), ','))
    }
}

/// The custom keybinding paths listed in a `gsettings` answer.
pub fn parse_keybinding_paths(output: &str) -> (r: Vec<String>)
    ensures
        r@.map_values(|s: String| s@) == keybinding_paths(output@),
{
    let all = chars_of(output);
    let existing = trim_chars(&all);
    let empty_list = chars_of("@as []");
    let brackets_only = chars_of("[]");
    let e1 = crate::text::chars_start_with(&existing, &empty_list) && existing.len()
        == empty_list.len();
    let e2 = crate::text::chars_start_with(&existing, &brackets_only) && existing.len()
        == brackets_only.len();
    proof {
        if existing@.len() == empty_list@.len() {
            assert(existing@.take(existing@.len() as int) =~= existing@);
        }
        if existing@.len() == brackets_only@.len() {
            assert(existing@.take(existing@.len() as int) =~= existing@);
        }
        if existing@ == empty_list@ {
            assert(existing@.take(existing@.len() as int) =~= existing@);
        }
        if existing@ == brackets_only@ {
            assert(existing@.take(existing@.len() as int) =~= existing@);
        }
    }
    let mut out: Vec<String> = Vec::new();
    if e1 || e2 || existing.len() == 0 {
        assert(out@.map_values(|s: String| s@) =~= keybinding_paths(output@));
        return out;
    }
    let mut set: Vec<char> = Vec::new();
    set.push('[');
    set.push(']');
    assert(set@ =~= seq!['[', ']']);
    let inner = trim_set_chars(&existing, &set);
    let pieces = split_chars(&inner, ',');
    let mut quote: Vec<char> = Vec::new();
    quote.push('\'');
    assert(quote@ =~= seq!['\'']);
    let ghost ps = char_runs(pieces@);
    let mut i: usize = 0;
    while i < pieces.len()
        invariant
            ps == char_runs(pieces@),
            quote@ == seq!['\''],
            i <= pieces@.len(),
            out@.map_values(|s: String| s@) == clean_pieces(ps.take(i as int)),
        decreases pieces@.len() - i,
    {
        let t = trim_chars(&pieces[i]);
        let c = trim_set_chars(&t, &quote);
        assert(ps.take(i + 1).drop_last() =~= ps.take(i as int));
        assert(ps.take(i + 1).last() == pieces@[i as int]@);
        if c.len() > 0 {
            out.push(string_from_chars(&c));
        }
        assert(out@.map_values(|s: String| s@) =~= clean_pieces(ps.take(i + 1)));
        i = i + 1;
    }
    assert(ps.take(ps.len() as int) =~= ps);
    out
}

/// The part of `s` after the last occurrence of the non-empty `pat`, all of `s`
/// when it has none (the first item of `str::rsplit`).
pub open spec fn after_last(s: Seq<char>, pat: Seq<char>) -> Seq<char>
    decreases s.len(),
{
    if pat.len() > 0 && pat.is_suffix_of(s) {
        Seq::empty()
    } else if s.len() == 0 {
        Seq::empty()
    } else {
        after_last(s.drop_last(), pat).push(s.last())
    }
}

/// The number a keybinding path ends with, after the last `custom` and with its
/// trailing slashes removed, when that part is a number.
pub open spec fn custom_index(path: Seq<char>) -> Option<nat> {
    parse_unsigned(after_last(trim_end_set(path, seq!['/']), "custom"@), usize::MAX as nat)
}

/// The part of `s` after the last occurrence of the non-empty `pat`.
fn after_last_chars(s: &Vec<char>, pat: &Vec<char>) -> (r: Vec<char>)
    requires
        pat@.len() > 0,
    ensures
        r@ == after_last(s@, pat@),
{
    let mut end: usize = s.len();
    assert(s@.subrange(0, s@.len() as int) =~= s@);
    while end > 0 && !(pat.len() <= end && ends_with_at(s, pat, end))
        invariant
            end <= s@.len(),
            pat@.len() > 0,
            after_last(s@, pat@) == after_last(s@.subrange(0, end as int), pat@) + s@.subrange(
                end as int,
                s@.len() as int,
            ),
        decreases end,
    {
        let ghost pre = s@.subrange(0, end as int);
        assert(pre.drop_last() =~= s@.subrange(0, end - 1));
        assert(s@.subrange(end - 1, s@.len() as int) =~= seq![pre.last()] + s@.subrange(
            end as int,
            s@.len() as int,
        ));
        end = end - 1;
    }
    let start = end;
    proof {
        if end == 0 {
            assert(s@.subrange(0, 0) =~= Seq::<char>::empty());
        }
    }
    let r = sub_chars(s, start, s.len());
    assert(after_last(s@, pat@) =~= r@);
    r
}

/// Whether `s[..end]` ends with `suffix`.
fn ends_with_at(s: &Vec<char>, suffix: &Vec<char>, end: usize) -> (r: bool)
    requires
        suffix@.len() <= end <= s@.len(),
    ensures
        r == suffix@.is_suffix_of(s@.subrange(0, end as int)),
{
    let start = end - suffix.len();
    let mut j: usize = 0;
    while j < suffix.len()
        invariant
            start == end - suffix@.len(),
            end <= s@.len(),
            j <= suffix@.len(),
            forall|k: int| 0 <= k < j ==> s@[start + k] == suffix@[k],
        decreases suffix@.len() - j,
    {
        if s[start + j] != suffix[j] {
            assert(s@.subrange(0, end as int).skip(start as int)[j as int] != suffix@[j as int]);
            return false;
        }
        j = j + 1;
    }
    assert(s@.subrange(0, end as int).skip(start as int) =~= suffix@);
    true
}

/// The number a keybinding path ends with, if any.
pub fn keybinding_index(path: &str) -> (r: Option<usize>)
    ensures
        match r {
            Some(v) => custom_index(path@) == Some(v as nat),
            None => custom_index(path@) is None,
        },
{
    let p = chars_of(path);
    let mut slash: Vec<char> = Vec::new();
    slash.push('/');
    assert(slash@ =~= seq!['/']);
    let t = trim_end_set_chars(&p, &slash);
    let custom = chars_of("custom");
    proof {
        reveal_strlit("custom");
    }
    let tail = after_last_chars(&t, &custom);
    parse_usize(&tail)
}

/// The smallest number that `used` does not hold.
pub open spec fn is_first_free(n: nat, used: Seq<nat>) -> bool {
    &&& !used.contains(n)
    &&& forall|m: nat| m < n ==> used.contains(m)
}

/// The numbers of the given keybinding paths, for those that end with one.
pub open spec fn used_indices(paths: Seq<Seq<char>>) -> Seq<nat>
    decreases paths.len(),
{
    if paths.len() == 0 {
        Seq::empty()
    } else {
        let earlier = used_indices(paths.drop_last());
        match custom_index(paths.last()) {
            Some(v) => earlier.push(v),
            None => earlier,
        }
    }
}

/// The smallest keybinding number that none of `paths` uses.
pub fn next_free_index(paths: &Vec<String>) -> (r: usize)
    ensures
        is_first_free(r as nat, used_indices(paths@.map_values(|s: String| s@))),
{
    let ghost pv = paths@.map_values(|s: String| s@);
    let mut used: Vec<usize> = Vec::new();
    let mut i: usize = 0;
    while i < paths.len()
        invariant
            pv == paths@.map_values(|s: String| s@),
            i <= paths@.len(),
            used@.len() <= i,
            used@.map_values(|u: usize| u as nat) == used_indices(pv.take(i as int)),
        decreases paths@.len() - i,
    {
        assert(pv.take(i + 1).drop_last() =~= pv.take(i as int));
        assert(pv.take(i + 1).last() == paths@[i as int]@);
        match keybinding_index(paths[i].as_str()) {
            Some(v) => {
                used.push(v);
                assert(used@.map_values(|u: usize| u as nat) =~= used_indices(pv.take(i + 1)));
            },
            None => {},
        }
        i = i + 1;
    }
    assert(pv.take(paths@.len() as int) =~= pv);
    let ghost uv = used@.map_values(|u: usize| u as nat);
    let mut idx: usize = 0;
    while idx < used.len() && contains_usize(&used, idx)
        invariant
            uv == used@.map_values(|u: usize| u as nat),
            idx <= used@.len(),
            forall|m: nat| m < idx ==> uv.contains(m),
        decreases used@.len() - idx,
    {
        proof {
            let k = choose|k: int| 0 <= k < used@.len() && used@[k] == idx;
            assert(uv[k] == idx as nat);
        }
        idx = idx + 1;
    }
    proof {
        if idx == used@.len() {
            if uv.contains(idx as nat) {
                lemma_too_many_used(uv, idx as nat);
                let m = choose|m: nat| m <= idx && !uv.contains(m);
                assert(m < idx || m == idx);
            }
        } else {
            if uv.contains(idx as nat) {
                let k = choose|k: int| 0 <= k < uv.len() && uv[k] == idx as nat;
                assert(used@[k] == idx);
            }
        }
    }
    idx
}

/// A list of `n` numbers misses one of `0..=n`.
proof fn lemma_too_many_used(uv: Seq<nat>, n: nat)
    requires
        uv.len() == n,
    ensures
        exists|m: nat| m <= n && !uv.contains(m),
{
    if forall|m: nat| m <= n ==> uv.contains(m) {
    let ints = uv.map_values(|x: nat| x as int);
    let range = vstd::set_lib::set_int_range(0, (n + 1) as int);
    vstd::set_lib::lemma_int_range(0, (n + 1) as int);
    assert forall|x: int| range.contains(x) implies ints.to_set().contains(x) by {
        let m = x as nat;
        assert(uv.contains(m));
        let k = choose|k: int| 0 <= k < uv.len() && uv[k] == m;
        assert(ints[k] == x);
    }
    ints.lemma_cardinality_of_set();
    vstd::seq_lib::seq_to_set_is_finite(ints);
    vstd::set_lib::lemma_len_subset(range, ints.to_set());
    }
}

/// Whether `v` holds `x`.
fn contains_usize(v: &Vec<usize>, x: usize) -> (r: bool)
    ensures
        r == v@.contains(x),
{
    let mut i: usize = 0;
    while i < v.len()
        invariant
            i <= v@.len(),
            forall|k: int| 0 <= k < i ==> v@[k] != x,
        decreases v@.len() - i,
    {
        if v[i] == x {
            assert(v@[i as int] == x);
            return true;
        }
        i = i + 1;
    }
    false
}

/// The dconf path of the custom keybinding number `n`.
pub open spec fn custom_binding_path_text(n: nat) -> Seq<char> {
    "/org/gnome/settings-daemon/plugins/media-keys/custom-keybindings/custom"@ + nat_decimal(n)
        + "/"@
}

/// The dconf path of the custom keybinding number `n`.
pub fn custom_binding_path(n: usize) -> (r: String)
    ensures
        r@ == custom_binding_path_text(n as nat),
{
    let mut out = chars_of("/org/gnome/settings-daemon/plugins/media-keys/custom-keybindings/custom");
    let d = decimal_chars(n as u64);
    push_chars(&mut out, &d);
    push_str(&mut out, "/");
    string_from_chars(&out)
}

/// The gsettings schema path of the custom keybinding at `path`.
pub fn binding_schema(path: &str) -> (r: String)
    ensures
        r@ == "org.gnome.settings-daemon.plugins.media-keys.custom-keybinding:"@ + path@,
{
    let mut s = String::from_str("org.gnome.settings-daemon.plugins.media-keys.custom-keybinding:");
    s.append(path);
    s
}

/// The quoted, comma-separated items of a list.
pub open spec fn quoted_join(ps: Seq<Seq<char>>) -> Seq<char>
    decreases ps.len(),
{
    if ps.len() == 0 {
        Seq::empty()
    } else if ps.len() == 1 {
        "'"@ + ps[0] + "'"@
    } else {
        quoted_join(ps.drop_last()) + ", '"@ + ps.last() + "'"@
    }
}

/// The gsettings value of a list of keybinding paths: `['p1', 'p2']`.
pub open spec fn keybinding_list_text(ps: Seq<Seq<char>>) -> Seq<char> {
    "["@ + quoted_join(ps) + "]"@
}

/// The gsettings value of the keybinding list `paths`.
pub fn keybinding_list(paths: &Vec<String>) -> (r: String)
    ensures
        r@ == keybinding_list_text(paths@.map_values(|s: String| s@)),
{
    let ghost pv = paths@.map_values(|s: String| s@);
    let mut body: Vec<char> = Vec::new();
    let mut i: usize = 0;
    while i < paths.len()
        invariant
            pv == paths@.map_values(|s: String| s@),
            i <= paths@.len(),
            body@ == quoted_join(pv.take(i as int)),
        decreases paths@.len() - i,
    {
        assert(pv.take(i + 1).drop_last() =~= pv.take(i as int));
        assert(pv.take(i + 1).last() == paths@[i as int]@);
        if i == 0 {
            push_str(&mut body, "'");
        } else {
            push_str(&mut body, ", '");
        }
        push_str(&mut body, paths[i].as_str());
        push_str(&mut body, "'");
        proof {
            if i == 0 {
                assert(pv.take(1)[0] == paths@[0]@);
                assert(body@ =~= quoted_join(pv.take(1)));
            }
        }
        i = i + 1;
    }
    assert(pv.take(paths@.len() as int) =~= pv);
    let mut out = chars_of("[");
    push_chars(&mut out, &body);
    push_str(&mut out, "]");
    string_from_chars(&out)
}

/// Whether a gsettings answer for a keybinding's name says "Spear".
pub fn is_spear_binding_name(output: &str) -> (r: bool)
    ensures
        r == (trim_set(trim(output@), seq!['\'']) == "Spear"@),
{
    let all = chars_of(output);
    let t = trim_chars(&all);
    let mut quote: Vec<char> = Vec::new();
    quote.push('\'');
    assert(quote@ =~= seq!['\'']);
    let n = trim_set_chars(&t, &quote);
    let s = string_from_chars(&n);
    str_eq(s.as_str(), "Spear")
}

/// The first argument after the program name that does not start with `-`.
pub open spec fn first_plain_arg(args: Seq<Seq<char>>) -> Option<Seq<char>>
    decreases args.len(),
{
    if args.len() <= 1 {
        None
    } else {
        match first_plain_arg(args.drop_last()) {
            Some(a) => Some(a),
            None => if args.last().len() > 0 && args.last()[0] == '-' {
                None
            } else {
                Some(args.last())
            },
        }
    }
}

/// The shortcut the installer registers: the first argument that is not an
/// option, or the default.
pub fn pick_shortcut(args: &Vec<String>) -> (r: String)
    ensures
        r@ == match first_plain_arg(args@.map_values(|s: String| s@)) {
            Some(a) => a,
            None => DEFAULT_SHORTCUT@,
        },
{
    let ghost av = args@.map_values(|s: String| s@);
    let mut i: usize = 1;
    if args.len() <= 1 {
        return String::from_str(DEFAULT_SHORTCUT);
    }
    assert(av.take(1).len() <= 1);
    while i < args.len()
        invariant
            av == args@.map_values(|s: String| s@),
            1 <= i <= args@.len(),
            first_plain_arg(av.take(i as int)) is None,
        decreases args@.len() - i,
    {
        assert(av.take(i + 1).drop_last() =~= av.take(i as int));
        assert(av.take(i + 1).last() == args@[i as int]@);
        let a = chars_of(args[i].as_str());
        if !(a.len() > 0 && a[0] == '-') {
            proof {
                lemma_first_plain_prefix(av, i + 1);
            }
            return args[i].clone();
        }
        i = i + 1;
    }
    assert(av.take(args@.len() as int) =~= av);
    String::from_str(DEFAULT_SHORTCUT)
}

/// Once a prefix has a first plain argument, the whole list has the same one.
proof fn lemma_first_plain_prefix(av: Seq<Seq<char>>, k: int)
    requires
        0 <= k <= av.len(),
        first_plain_arg(av.take(k)) is Some,
    ensures
        first_plain_arg(av) == first_plain_arg(av.take(k)),
    decreases av.len(),
{
    if k == av.len() {
        assert(av.take(k) =~= av);
    } else {
        assert(av.drop_last().take(k) =~= av.take(k));
        lemma_first_plain_prefix(av.drop_last(), k);
    }
}

/// Whether two paths are the same path: `Path`'s equality, which compares their
/// components.
pub uninterp spec fn path_eq(a: Seq<char>, b: Seq<char>) -> bool;

/// Compares `Path::new(a)` and `Path::new(b)` with `==`. The contract names the
/// result `path_eq` of the two texts; how components are compared is not stated.
#[verifier::external_body]
fn same_path(a: &str, b: &str) -> (r: bool)
    ensures
        r == path_eq(a@, b@),
{
    std::path::Path::new(a) == std::path::Path::new(b)
}

/// Whether the `PATH`-style list `path_var` (directories separated by `:`) names
/// the directory `dir`.
pub fn path_list_has_dir(path_var: &str, dir: &str) -> (r: bool)
    ensures
        r == exists|k: int|
            0 <= k < split_on(path_var@, ':').len() && path_eq(
                #[trigger] split_on(path_var@, ':')[k],
                dir@,
            ),
{
    let s = chars_of(path_var);
    let pieces = split_chars(&s, ':');
    let ghost ps = char_runs(pieces@);
    let mut i: usize = 0;
    while i < pieces.len()
        invariant
            ps == char_runs(pieces@),
            ps == split_on(path_var@, ':'),
            i <= pieces@.len(),
            forall|k: int| 0 <= k < i ==> !path_eq(#[trigger] ps[k], dir@),
        decreases pieces@.len() - i,
    {
        let p = string_from_chars(&pieces[i]);
        if same_path(p.as_str(), dir) {
            assert(ps[i as int] == p@);
            return true;
        }
        i = i + 1;
    }
    false
}

/// What the launcher does when started with some arguments.
#[derive(Clone, Copy, Debug, PartialEq, Eq)]
pub enum CliCommand {
    Help,
    Quit,
    Status,
    Config,
    ListPlugins,
    Toggle,
}

/// Whether `args` holds `a` or `b`.
pub open spec fn has_arg(args: Seq<Seq<char>>, a: Seq<char>, b: Seq<char>) -> bool {
    args.contains(a) || args.contains(b)
}

/// What the command line `args` asks of the running launcher, the first that
/// applies of: help, quit, status, config, list plugins; toggling the window
/// otherwise.
pub open spec fn cli_command_of(args: Seq<Seq<char>>) -> CliCommand {
    if has_arg(args, "--help"@, "-h"@) {
        CliCommand::Help
    } else if has_arg(args, "--quit"@, "-q"@) {
        CliCommand::Quit
    } else if has_arg(args, "--status"@, "-s"@) {
        CliCommand::Status
    } else if has_arg(args, "--config"@, "-c"@) {
        CliCommand::Config
    } else if has_arg(args, "--list-plugins"@, "-l"@) {
        CliCommand::ListPlugins
    } else {
        CliCommand::Toggle
    }
}

/// Adding `extra` to an argument list adds exactly that text to what it holds.
proof fn lemma_push_contains(args: Seq<Seq<char>>, extra: Seq<char>, a: Seq<char>)
    ensures
        args.push(extra).contains(a) == (args.contains(a) || extra == a),
{
    let grown = args.push(extra);
    if args.contains(a) {
        let k = choose|k: int| 0 <= k < args.len() && args[k] == a;
        assert(grown[k] == a);
    }
    if extra == a {
        assert(grown[args.len() as int] == a);
    }
    if grown.contains(a) {
        let k = choose|k: int| 0 <= k < grown.len() && grown[k] == a;
        if k < args.len() {
            assert(args[k] == a);
        }
    }
}

/// Each short option means the same as its long form: adding `-h`, `-q`, `-s`,
/// `-c` or `-l` to any command line gives the same command as adding `--help`,
/// `--quit`, `--status`, `--config` or `--list-plugins`. A command line that
/// holds the status option, short or long, and neither the help nor the quit
/// option asks for the status.
pub proof fn law_short_options_match_long(args: Seq<Seq<char>>)
    ensures
        cli_command_of(args.push("-h"@)) == cli_command_of(args.push("--help"@)),
        cli_command_of(args.push("-q"@)) == cli_command_of(args.push("--quit"@)),
        cli_command_of(args.push("-s"@)) == cli_command_of(args.push("--status"@)),
        cli_command_of(args.push("-c"@)) == cli_command_of(args.push("--config"@)),
        cli_command_of(args.push("-l"@)) == cli_command_of(args.push("--list-plugins"@)),
        (args.contains("-s"@) || args.contains("--status"@)) && !has_arg(args, "--help"@, "-h"@)
            && !has_arg(args, "--quit"@, "-q"@) ==> cli_command_of(args) == CliCommand::Status,
{
    reveal_strlit("-h");
    reveal_strlit("-q");
    reveal_strlit("-s");
    reveal_strlit("-c");
    reveal_strlit("-l");
    reveal_strlit("--help");
    reveal_strlit("--quit");
    reveal_strlit("--status");
    reveal_strlit("--config");
    reveal_strlit("--list-plugins");
    let opts = seq![
        "-h"@,
        "-q"@,
        "-s"@,
        "-c"@,
        "-l"@,
        "--help"@,
        "--quit"@,
        "--status"@,
        "--config"@,
        "--list-plugins"@,
    ];
    assert forall|i: int, j: int| 0 <= i < 10 && 0 <= j < 10 && i != j implies opts[i] != opts[j] by {
        if opts[i] == opts[j] {
            assert(opts[i].len() == opts[j].len());
            assert(opts[i][1] == opts[j][1]);
            assert(opts[i][opts[i].len() - 1] == opts[j][opts[j].len() - 1]);
        }
    }
    assert forall|extra: Seq<char>, a: Seq<char>| #[trigger] args.push(extra).contains(a) == (
    args.contains(a) || extra == a) by {
        lemma_push_contains(args, extra, a);
    }
    assert(opts[0] != opts[5] && opts[0] != opts[6] && opts[0] != opts[7] && opts[0] != opts[8]
        && opts[0] != opts[9] && opts[0] != opts[1] && opts[0] != opts[2] && opts[0] != opts[3]
        && opts[0] != opts[4]);
}

/// Whether one of `args` is the text `a`.
pub fn args_contain(args: &Vec<String>, a: &str) -> (r: bool)
    ensures
        r == args@.map_values(|s: String| s@).contains(a@),
{
    let ghost av = args@.map_values(|s: String| s@);
    let mut i: usize = 0;
    while i < args.len()
        invariant
            av == args@.map_values(|s: String| s@),
            i <= args@.len(),
            forall|k: int| 0 <= k < i ==> av[k] != a@,
        decreases args@.len() - i,
    {
        if str_eq(args[i].as_str(), a) {
            assert(av[i as int] == a@);
            return true;
        }
        i = i + 1;
    }
    false
}

/// What the command line `args` asks of the running launcher.
pub fn cli_command(args: &Vec<String>) -> (r: CliCommand)
    ensures
        r == cli_command_of(args@.map_values(|s: String| s@)),
{
    if args_contain(args, "--help") || args_contain(args, "-h") {
        CliCommand::Help
    } else if args_contain(args, "--quit") || args_contain(args, "-q") {
        CliCommand::Quit
    } else if args_contain(args, "--status") || args_contain(args, "-s") {
        CliCommand::Status
    } else if args_contain(args, "--config") || args_contain(args, "-c") {
        CliCommand::Config
    } else if args_contain(args, "--list-plugins") || args_contain(args, "-l") {
        CliCommand::ListPlugins
    } else {
        CliCommand::Toggle
    }
}

/// The help text the launcher prints for `--help`.
pub const HELP_MESSAGE: &'static str = "Spear Launcher Daemon\n\nUsage: spear [options]\n\nOptions:\n-t, --toggle          Toggle window visibility (default if no options passed)\n-q, --quit            Quit the launcher background daemon\n-s, --status          Print the daemon running status\n-l, --list-plugins    List all enabled search plugins\n-c, --config          Print the configuration file path\n--init-setup          Run initial startup and hotkey setup\n-h, --help            Print this help message\n";

/// Which built-in plugins the settings switch on.
#[derive(Clone, Copy, Debug, PartialEq, Eq)]
pub struct PluginSwitches {
    pub apps: bool,
    pub calc: bool,
    pub web: bool,
    pub youtube: bool,
    pub files: bool,
    pub command: bool,
    pub gnome: bool,
    pub recent: bool,
    pub packages: bool,
    pub fonts: bool,
    pub colors: bool,
    pub clipboard: bool,
    pub window_mgmt: bool,
    pub emojis: bool,
    pub window_switcher: bool,
}

/// Whether the plugin with identifier `id` is switched on; a plugin without a
/// switch is always on.
pub open spec fn plugin_switched_on(id: Seq<char>, s: PluginSwitches) -> bool {
    if id == "apps"@ {
        s.apps
    } else if id == "calc"@ {
        s.calc
    } else if id == "web"@ {
        s.web
    } else if id == "youtube"@ {
        s.youtube
    } else if id == "files"@ {
        s.files
    } else if id == "command"@ {
        s.command
    } else if id == "gnome"@ {
        s.gnome
    } else if id == "recent"@ {
        s.recent
    } else if id == "packages"@ {
        s.packages
    } else if id == "fonts"@ {
        s.fonts
    } else if id == "colors"@ {
        s.colors
    } else if id == "clipboard"@ {
        s.clipboard
    } else if id == "window-mgmt"@ {
        s.window_mgmt
    } else if id == "emojis"@ {
        s.emojis
    } else if id == "window-switcher"@ {
        s.window_switcher
    } else {
        true
    }
}

/// Whether the plugin with identifier `id` is switched on.
pub fn plugin_enabled(id: &str, s: &PluginSwitches) -> (r: bool)
    ensures
        r == plugin_switched_on(id@, *s),
{
    if str_eq(id, "apps") {
        s.apps
    } else if str_eq(id, "calc") {
        s.calc
    } else if str_eq(id, "web") {
        s.web
    } else if str_eq(id, "youtube") {
        s.youtube
    } else if str_eq(id, "files") {
        s.files
    } else if str_eq(id, "command") {
        s.command
    } else if str_eq(id, "gnome") {
        s.gnome
    } else if str_eq(id, "recent") {
        s.recent
    } else if str_eq(id, "packages") {
        s.packages
    } else if str_eq(id, "fonts") {
        s.fonts
    } else if str_eq(id, "colors") {
        s.colors
    } else if str_eq(id, "clipboard") {
        s.clipboard
    } else if str_eq(id, "window-mgmt") {
        s.window_mgmt
    } else if str_eq(id, "emojis") {
        s.emojis
    } else if str_eq(id, "window-switcher") {
        s.window_switcher
    } else {
        true
    }
}

/// A built-in plugin as listed: its name, identifier and whether it is on.
pub struct InternalPluginLine {
    pub name: String,
    pub id: String,
    pub enabled: bool,
}

/// An external plugin as listed: its name, identifier and keyword.
pub struct ExternalPluginLine {
    pub name: String,
    pub id: String,
    pub keyword: Option<String>,
}

/// The line of one built-in plugin.
pub open spec fn internal_line_text(p: InternalPluginLine) -> Seq<char> {
    "  - "@ + p.name@ + " ["@ + p.id@ + "] ("@ + (if p.enabled {
        "enabled"@
    } else {
        "disabled"@
    }) + ")\n"@
}

/// The line of one external plugin.
pub open spec fn external_line_text(p: ExternalPluginLine) -> Seq<char> {
    "  - "@ + p.name@ + " ["@ + p.id@ + "] (keyword: "@ + (match p.keyword {
        Some(k) => k@,
        None => "none"@,
    }) + ")\n"@
}

/// The lines of the built-in plugins.
pub open spec fn internal_lines(ps: Seq<InternalPluginLine>) -> Seq<char>
    decreases ps.len(),
{
    if ps.len() == 0 {
        Seq::empty()
    } else {
        internal_lines(ps.drop_last()) + internal_line_text(ps.last())
    }
}

/// The lines of the external plugins.
pub open spec fn external_lines(ps: Seq<ExternalPluginLine>) -> Seq<char>
    decreases ps.len(),
{
    if ps.len() == 0 {
        Seq::empty()
    } else {
        external_lines(ps.drop_last()) + external_line_text(ps.last())
    }
}

/// What `--list-plugins` prints.
pub open spec fn plugin_list_text(internal: Seq<InternalPluginLine>, external: Seq<ExternalPluginLine>) -> Seq<char> {
    "Internal Plugins:\n"@ + internal_lines(internal) + "\nExternal Plugins:\n"@ + (if external.len()
        == 0 {
        "  (None)\n"@
    } else {
        external_lines(external)
    })
}

/// What `--list-plugins` prints: each built-in plugin with its state, then each
/// external plugin with its keyword, or "(None)".
pub fn plugin_list(internal: &Vec<InternalPluginLine>, external: &Vec<ExternalPluginLine>) -> (r: String)
    ensures
        r@ == plugin_list_text(internal@, external@),
{
    let mut out = String::from_str("Internal Plugins:\n");
    let ghost start = out@;
    let mut i: usize = 0;
    while i < internal.len()
        invariant
            start == "Internal Plugins:\n"@,
            i <= internal@.len(),
            out@ == start + internal_lines(internal@.take(i as int)),
        decreases internal@.len() - i,
    {
        let p = &internal[i];
        assert(internal@.take(i + 1).drop_last() =~= internal@.take(i as int));
        out.append("  - ");
        out.append(p.name.as_str());
        out.append(" [");
        out.append(p.id.as_str());
        out.append("] (");
        if p.enabled {
            out.append("enabled");
        } else {
            out.append("disabled");
        }
        out.append(")\n");
        assert(out@ =~= start + internal_lines(internal@.take(i + 1)));
        i = i + 1;
    }
    assert(internal@.take(internal@.len() as int) =~= internal@);
    out.append("\nExternal Plugins:\n");
    if external.len() == 0 {
        out.append("  (None)\n");
        return out;
    }
    let ghost mid = out@;
    let mut j: usize = 0;
    while j < external.len()
        invariant
            j <= external@.len(),
            out@ == mid + external_lines(external@.take(j as int)),
        decreases external@.len() - j,
    {
        let p = &external[j];
        assert(external@.take(j + 1).drop_last() =~= external@.take(j as int));
        out.append("  - ");
        out.append(p.name.as_str());
        out.append(" [");
        out.append(p.id.as_str());
        out.append("] (keyword: ");
        match &p.keyword {
            Some(k) => out.append(k.as_str()),
            None => out.append("none"),
        }
        out.append(")\n");
        assert(out@ =~= mid + external_lines(external@.take(j + 1)));
        j = j + 1;
    }
    assert(external@.take(external@.len() as int) =~= external@);
    out
}

} // verus!
