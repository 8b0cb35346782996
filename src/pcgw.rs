//! Save locations from wiki text: the `{{Game data/saves|…}}` templates, their
//! parameters, and the path tokens they use. Indices count characters.

use vstd::prelude::*;
use crate::text::{chars_contain, chars_of, chars_occur_at, lower_of, lowercase, occurs_at, seq_contains, str_contains, string_of_range, trim, trimmed};

verus! {

broadcast use vstd::string::group_string_axioms;

/// Whether `{{` stands at index `i`.
pub open spec fn opens_at(s: Seq<char>, i: int) -> bool {
    0 <= i && i + 1 < s.len() && s[i] == '{' && s[i + 1] == '{'
}

/// Whether `}}` stands at index `i`.
pub open spec fn closes_at(s: Seq<char>, i: int) -> bool {
    0 <= i && i + 1 < s.len() && s[i] == '}' && s[i + 1] == '}'
}

/// Scanning from `idx` at nesting depth `depth` (each `{{` one deeper, each
/// `}}` one shallower, both read as a pair), the index just past the `}}`
/// that brings the depth back to zero.
pub open spec fn close_from(s: Seq<char>, idx: int, depth: int) -> Option<int>
    decreases s.len() - idx,
{
    if idx < 0 || idx + 1 >= s.len() {
        None
    } else if opens_at(s, idx) {
        close_from(s, idx + 2, depth + 1)
    } else if closes_at(s, idx) {
        if depth - 1 == 0 {
            Some(idx + 2)
        } else {
            close_from(s, idx + 2, depth - 1)
        }
    } else {
        close_from(s, idx + 1, depth)
    }
}

/// The template that opens at `start`: the index just past its balanced
/// closing `}}`, and its text between the outer braces.
pub open spec fn balanced_template(s: Seq<char>, start: int) -> Option<(int, Seq<char>)> {
    if !opens_at(s, start) {
        None
    } else {
        match close_from(s, start, 0) {
            Some(end) => Some((end, s.subrange(start + 2, end - 2))),
            None => None,
        }
    }
}

proof fn lemma_close_from_after(s: Seq<char>, idx: int, depth: int)
    ensures
        close_from(s, idx, depth) is Some ==> idx + 2 <= close_from(s, idx, depth)->0 <= s.len(),
    decreases s.len() - idx,
{
    if !(idx < 0 || idx + 1 >= s.len()) {
        if opens_at(s, idx) {
            lemma_close_from_after(s, idx + 2, depth + 1);
        } else if closes_at(s, idx) {
            lemma_close_from_after(s, idx + 2, depth - 1);
        } else {
            lemma_close_from_after(s, idx + 1, depth);
        }
    }
}

fn balanced_in(cs: &Vec<char>, start: usize) -> (r: Option<(usize, String)>)
    ensures
        match balanced_template(cs@, start as int) {
            Some((end, body)) => match r {
                Some((e, b)) => e == end && b@ == body,
                None => false,
            },
            None => r is None,
        },
{
    let n = cs.len();
    if !(start < n && n - start >= 2 && cs[start] == '{' && cs[start + 1] == '{') {
        return None;
    }
    let mut idx: usize = start + 2;
    let mut depth: usize = 1;
    while idx < n - 1
        invariant
            n == cs@.len(),
            start + 2 <= idx <= n,
            opens_at(cs@, start as int),
            1 <= depth <= idx,
            close_from(cs@, start as int, 0) == close_from(cs@, idx as int, depth as int),
        decreases n - idx,
    {
        if cs[idx] == '{' && cs[idx + 1] == '{' {
            depth = depth + 1;
            idx = idx + 2;
        } else if cs[idx] == '}' && cs[idx + 1] == '}' {
            if depth == 1 {
                proof {
                    assert(!opens_at(cs@, idx as int));
                    assert(closes_at(cs@, idx as int));
                    assert(close_from(cs@, idx as int, 1) == Some(idx + 2));
                    assert(balanced_template(cs@, start as int) == Some((idx + 2, cs@.subrange(start + 2, idx as int))));
                }
                let body = string_of_range(cs, start + 2, idx);
                return Some((idx + 2, body));
            }
            depth = depth - 1;
            idx = idx + 2;
        } else {
            idx = idx + 1;
        }
    }
    None
}

/// The template that opens at `start` (a character index, at most the
/// text's length): the index just past its balanced closing `}}`, and its
/// text between the outer braces; none when no `{{` opens there or it is
/// never closed.
pub fn extract_balanced_template(s: &str, start: usize) -> (r: Option<(usize, String)>)
    ensures
        match balanced_template(s@, start as int) {
            Some((end, body)) => match r {
                Some((e, b)) => e == end && b@ == body,
                None => false,
            },
            None => r is None,
        },
{
    let cs = chars_of(s);
    balanced_in(&cs, start)
}

/// The first index at or after `i` where `needle` occurs in `s`.
pub open spec fn find_from(s: Seq<char>, needle: Seq<char>, i: int) -> Option<int>
    decreases s.len() + 1 - i,
{
    if i < 0 || i > s.len() {
        None
    } else if occurs_at(s, needle, i) {
        Some(i)
    } else {
        find_from(s, needle, i + 1)
    }
}

/// The bodies of the templates that open with `needle`, from index `i` on,
/// in order: each search resumes past the template just read, and stops at
/// the first one that is never closed.
pub open spec fn templates_from(s: Seq<char>, needle: Seq<char>, i: int) -> Seq<Seq<char>>
    decreases s.len() + 1 - i,
{
    match find_from(s, needle, i) {
        None => Seq::empty(),
        Some(start) => match balanced_template(s, start) {
            None => Seq::empty(),
            Some((end, body)) => if i < end <= s.len() + 1 {
                seq![body] + templates_from(s, needle, end)
            } else {
                Seq::empty()
            },
        },
    }
}

/// The template name as it opens a template: `{{` and the name.
pub open spec fn template_needle(name: Seq<char>) -> Seq<char> {
    seq!['{', '{'] + name
}

fn find_in(cs: &Vec<char>, needle: &Vec<char>, from: usize) -> (r: Option<usize>)
    requires
        from <= cs@.len(),
    ensures
        r == (match find_from(cs@, needle@, from as int) { Some(j) => Some(j as usize), None => None::<usize> }),
{
    let mut i: usize = from;
    while i < cs.len()
        invariant
            from <= i <= cs@.len(),
            find_from(cs@, needle@, from as int) == find_from(cs@, needle@, i as int),
        decreases cs@.len() - i,
    {
        if chars_occur_at(cs, needle, i) {
            return Some(i);
        }
        i = i + 1;
    }
    if chars_occur_at(cs, needle, i) {
        return Some(i);
    }
    assert(find_from(cs@, needle@, i + 1) is None);
    None
}

/// The bodies of the templates named `template_name` in the text, in order
/// of appearance, each without its outer braces; the search stops at the
/// first such template that is never closed.
pub fn extract_templates_named(wikitext: &str, template_name: &str) -> (r: Vec<String>)
    ensures
        r@.map_values(|b: String| b@) == templates_from(wikitext@, template_needle(template_name@), 0),
{
    let cs = chars_of(wikitext);
    let mut needle: Vec<char> = Vec::new();
    needle.push('{');
    needle.push('{');
    let name = chars_of(template_name);
    let mut k: usize = 0;
    while k < name.len()
        invariant
            k <= name@.len(),
            needle@ == seq!['{', '{'] + name@.take(k as int),
        decreases name@.len() - k,
    {
        needle.push(name[k]);
        assert(name@.take(k + 1) =~= name@.take(k as int).push(name@[k as int]));
        assert(needle@ =~= seq!['{', '{'] + name@.take(k + 1));
        k = k + 1;
    }
    assert(name@.take(name@.len() as int) =~= name@);
    assert(needle@ =~= template_needle(template_name@));
    let ghost whole = templates_from(cs@, needle@, 0);
    let mut out: Vec<String> = Vec::new();
    let mut i: usize = 0;
    while i <= cs.len()
        invariant
            i <= cs@.len() + 1,
            cs@ == wikitext@,
            needle@ == template_needle(template_name@),
            whole == templates_from(cs@, needle@, 0),
            out@.map_values(|b: String| b@) + templates_from(cs@, needle@, i as int) == whole,
        decreases cs@.len() + 1 - i,
    {
        let start = match find_in(&cs, &needle, i) {
            Some(st) => st,
            None => {
                assert(out@.map_values(|b: String| b@) =~= whole);
                return out;
            },
        };
        proof {
            lemma_find_from_range(cs@, needle@, i as int);
            lemma_close_from_after(cs@, start as int, 0);
        }
        match balanced_in(&cs, start) {
            Some((end, body)) => {
                let ghost before = out@.map_values(|b: String| b@);
                out.push(body);
                assert(out@.map_values(|b: String| b@) =~= before.push(body@));
                assert(templates_from(cs@, needle@, i as int) == seq![body@] + templates_from(cs@, needle@, end as int));
                assert(before.push(body@) + templates_from(cs@, needle@, end as int)
                    =~= before + (seq![body@] + templates_from(cs@, needle@, end as int)));
                i = end;
            },
            None => {
                assert(out@.map_values(|b: String| b@) =~= whole);
                return out;
            },
        }
    }
    assert(find_from(cs@, needle@, i as int) is None);
    assert(templates_from(cs@, needle@, i as int) =~= Seq::<Seq<char>>::empty());
    assert(out@.map_values(|b: String| b@) =~= whole);
    out
}

proof fn lemma_find_from_range(s: Seq<char>, needle: Seq<char>, i: int)
    ensures
        find_from(s, needle, i) is Some ==> i <= find_from(s, needle, i)->0 <= s.len(),
    decreases s.len() + 1 - i,
{
    if !(i < 0 || i > s.len()) && !occurs_at(s, needle, i) {
        lemma_find_from_range(s, needle, i + 1);
    }
}

/// The pieces of `s` split at each `|` that stands outside nested
/// templates, scanning from `i` at nesting depth `depth` with the current
/// piece starting at `start`.
pub open spec fn split_from(s: Seq<char>, i: int, depth: int, start: int) -> Seq<Seq<char>>
    decreases s.len() - i,
{
    if i < 0 || i >= s.len() {
        seq![s.subrange(start, s.len() as int)]
    } else if opens_at(s, i) {
        split_from(s, i + 2, depth + 1, start)
    } else if closes_at(s, i) {
        split_from(s, i + 2, depth - 1, start)
    } else if s[i] == '|' && depth == 0 {
        seq![s.subrange(start, i)] + split_from(s, i + 1, depth, i + 1)
    } else {
        split_from(s, i + 1, depth, start)
    }
}

/// The parameters of a template body: its pieces split at top-level `|`,
/// without the first piece, the template's name.
pub open spec fn template_params(s: Seq<char>) -> Seq<Seq<char>> {
    split_from(s, 0, 0, 0).drop_first()
}

/// The parameters of a template body, without the template's name; a `|`
/// inside a nested template does not split.
pub fn split_template_params(template_inner: &str) -> (r: Vec<String>)
    ensures
        r@.map_values(|p: String| p@) == template_params(template_inner@),
{
    let cs = chars_of(template_inner);
    let n = cs.len();
    let ghost whole = split_from(cs@, 0, 0, 0);
    let mut out: Vec<String> = Vec::new();
    let mut depth: i128 = 0;
    let mut start: usize = 0;
    let mut i: usize = 0;
    while i < n
        invariant
            n == cs@.len(),
            cs@ == template_inner@,
            start <= i <= n + 1,
            start <= n,
            -(i as int) <= depth <= i,
            n <= usize::MAX,
            whole == split_from(cs@, 0, 0, 0),
            out@.map_values(|p: String| p@) + split_from(cs@, i as int, depth as int, start as int) == whole,
        decreases n - i,
    {
        let ghost before = out@.map_values(|p: String| p@);
        if i < n - 1 && cs[i] == '{' && cs[i + 1] == '{' {
            depth = depth + 1;
            i = i + 2;
        } else if i < n - 1 && cs[i] == '}' && cs[i + 1] == '}' {
            depth = depth - 1;
            i = i + 2;
        } else if cs[i] == '|' && depth == 0 {
            let piece = string_of_range(&cs, start, i);
            out.push(piece);
            assert(out@.map_values(|p: String| p@) =~= before.push(cs@.subrange(start as int, i as int)));
            assert(before.push(cs@.subrange(start as int, i as int)) + split_from(cs@, i + 1, depth as int, i + 1)
                =~= before + (seq![cs@.subrange(start as int, i as int)] + split_from(cs@, i + 1, depth as int, i + 1)));
            i = i + 1;
            start = i;
        } else {
            i = i + 1;
        }
    }
    let ghost before = out@.map_values(|p: String| p@);
    assert(split_from(cs@, i as int, depth as int, start as int) == seq![cs@.subrange(start as int, n as int)]);
    let last = string_of_range(&cs, start, n);
    out.push(last);
    assert(out@.map_values(|p: String| p@) =~= whole);
    out.remove(0);
    assert(out@.map_values(|p: String| p@) =~= whole.drop_first());
    out
}

/// `s` from index `i` on, with each occurrence of `pat`, scanned left to
/// right without overlap, replaced by `rep`.
pub open spec fn replaced_from(s: Seq<char>, pat: Seq<char>, rep: Seq<char>, i: int) -> Seq<char>
    decreases s.len() - i,
{
    if i < 0 || i >= s.len() || pat.len() == 0 {
        s.subrange(if 0 <= i <= s.len() { i } else { s.len() as int }, s.len() as int)
    } else if occurs_at(s, pat, i) {
        rep + replaced_from(s, pat, rep, i + pat.len())
    } else {
        seq![s[i]] + replaced_from(s, pat, rep, i + 1)
    }
}

/// `s` with each occurrence of a non-empty `pat` replaced by `rep`.
pub open spec fn replaced(s: Seq<char>, pat: Seq<char>, rep: Seq<char>) -> Seq<char> {
    replaced_from(s, pat, rep, 0)
}

/// `s` with each occurrence of a non-empty `pat` replaced by `rep`.
fn replace_chars(s: &Vec<char>, pat: &Vec<char>, rep: &Vec<char>) -> (r: Vec<char>)
    requires
        pat@.len() > 0,
    ensures
        r@ == replaced(s@, pat@, rep@),
{
    let ghost whole = replaced(s@, pat@, rep@);
    let mut out: Vec<char> = Vec::new();
    let mut i: usize = 0;
    while i < s.len()
        invariant
            pat@.len() > 0,
            i <= s@.len(),
            whole == replaced(s@, pat@, rep@),
            out@ + replaced_from(s@, pat@, rep@, i as int) == whole,
        decreases s@.len() - i,
    {
        let ghost before = out@;
        if chars_occur_at(s, pat, i) {
            let mut k: usize = 0;
            while k < rep.len()
                invariant
                    k <= rep@.len(),
                    out@ == before + rep@.take(k as int),
                decreases rep@.len() - k,
            {
                out.push(rep[k]);
                assert(rep@.take(k + 1) =~= rep@.take(k as int).push(rep@[k as int]));
                assert(out@ =~= before + rep@.take(k + 1));
                k = k + 1;
            }
            assert(rep@.take(rep@.len() as int) =~= rep@);
            assert(out@ + replaced_from(s@, pat@, rep@, i + pat@.len()) =~= before + (rep@ + replaced_from(s@, pat@, rep@, i + pat@.len())));
            i = i + pat.len();
        } else {
            out.push(s[i]);
            assert(out@ + replaced_from(s@, pat@, rep@, i + 1) =~= before + (seq![s@[i as int]] + replaced_from(s@, pat@, rep@, i + 1)));
            i = i + 1;
        }
    }
    assert(replaced_from(s@, pat@, rep@, i as int) =~= Seq::<char>::empty());
    assert(out@ =~= whole);
    out
}

/// A string of the characters.
fn string_of(cs: &Vec<char>) -> (r: String)
    ensures
        r@ == cs@,
{
    string_of_range(cs, 0, cs.len())
}

/// The user folders that path tokens stand for, as the environment gives them.
#[derive(Clone, Debug)]
pub struct UserFolders {
    pub appdata: Option<String>,
    pub localappdata: Option<String>,
    pub userprofile: Option<String>,
}

/// One token step: with a value, and the token present, the token is
/// replaced and the text counts as changed.
pub open spec fn token_step(s: Seq<char>, changed: bool, token: Seq<char>, value: Option<Seq<char>>) -> (Seq<char>, bool) {
    match value {
        Some(v) => if seq_contains(s, token) { (replaced(s, token, v), true) } else { (s, changed) },
        None => (s, changed),
    }
}

pub open spec fn opt_view(o: Option<String>) -> Option<Seq<char>> {
    match o {
        Some(s) => Some(s@),
        None => None,
    }
}

/// The saved-games folder under a user profile.
pub open spec fn saved_games_of(profile: Option<String>) -> Option<Seq<char>> {
    match profile {
        Some(u) => Some(u@ + "\\Saved Games"@),
        None => None,
    }
}

/// A path with its tokens expanded (the roaming and local application data
/// folders, the user profile, and the saved-games folder under it, each
/// where the environment gives it) and each `/` turned into `\`; none when
/// nothing changed.
pub open spec fn expanded_path(raw: Seq<char>, f: UserFolders) -> Option<Seq<char>> {
    let s0 = (raw, false);
    let s1 = token_step(s0.0, s0.1, "{{p|appdata}}"@, opt_view(f.appdata));
    let s2 = token_step(s1.0, s1.1, "{{p|localappdata}}"@, opt_view(f.localappdata));
    let s3 = token_step(s2.0, s2.1, "{{p|userprofile}}"@, opt_view(f.userprofile));
    let s4 = token_step(s3.0, s3.1, "{{p|savedgames}}"@, saved_games_of(f.userprofile));
    let s5 = if seq_contains(s4.0, seq!['/']) { (replaced(s4.0, seq!['/'], seq!['\\']), true) } else { s4 };
    if s5.1 { Some(s5.0) } else { None }
}

fn apply_token(s: &mut Vec<char>, changed: &mut bool, token: &str, value: &Option<String>)
    requires
        token@.len() > 0,
    ensures
        (final(s)@, *final(changed)) == token_step(old(s)@, *old(changed), token@, opt_view(*value)),
{
    if let Some(v) = value {
        let t = chars_of(token);
        if chars_contain(s, &t) {
            let r = replace_chars(s, &t, &chars_of(v.as_str()));
            *s = r;
            *changed = true;
        }
    }
}

/// The path with its tokens expanded, as `expanded_path` states; none when
/// nothing changed.
pub fn expand_windows_path_tokens(raw: &str, folders: &UserFolders) -> (r: Option<String>)
    ensures
        opt_view(r) == expanded_path(raw@, *folders),
{
    proof {
        reveal_strlit("{{p|appdata}}");
        reveal_strlit("{{p|localappdata}}");
        reveal_strlit("{{p|userprofile}}");
        reveal_strlit("{{p|savedgames}}");
    }
    let mut s = chars_of(raw);
    let mut changed = false;
    apply_token(&mut s, &mut changed, "{{p|appdata}}", &folders.appdata);
    apply_token(&mut s, &mut changed, "{{p|localappdata}}", &folders.localappdata);
    apply_token(&mut s, &mut changed, "{{p|userprofile}}", &folders.userprofile);
    let saved = match &folders.userprofile {
        Some(u) => {
            let mut v = u.clone();
            v.append("\\Saved Games");
            Some(v)
        },
        None => None,
    };
    assert(opt_view(saved) == saved_games_of(folders.userprofile));
    apply_token(&mut s, &mut changed, "{{p|savedgames}}", &saved);
    let mut slash: Vec<char> = Vec::new();
    slash.push('/');
    let mut back: Vec<char> = Vec::new();
    back.push('\\');
    assert(slash@ =~= seq!['/']);
    assert(back@ =~= seq!['\\']);
    if chars_contain(&s, &slash) {
        s = replace_chars(&s, &slash, &back);
        changed = true;
    }
    if changed {
        Some(string_of(&s))
    } else {
        None
    }
}

/// A search hit on the wiki.
#[derive(Clone, Debug)]
pub struct PcgwSearchResult {
    pub title: String,
    pub pageid: u64,
}

/// One save location: the platform it is for, the path as written, and the
/// path with its tokens expanded if any were.
#[derive(Clone, Debug)]
pub struct PcgwSavePath {
    pub os: String,
    pub raw: String,
    pub expanded: Option<String>,
}

/// The save locations of a page.
#[derive(Clone, Debug)]
pub struct PcgwSaveLocations {
    pub title: String,
    pub paths: Vec<PcgwSavePath>,
}

/// The model of a save path.
pub open spec fn path_view(p: PcgwSavePath) -> (Seq<char>, Seq<char>, Option<Seq<char>>) {
    (p.os@, p.raw@, opt_view(p.expanded))
}

/// Whether a platform name, lowercased, is a Windows one.
pub open spec fn is_windows(os: Seq<char>) -> bool {
    seq_contains(lower_of(os), "windows"@) || lower_of(os) == "win"@
}

/// The save path a template body gives: its first two parameters,
/// trimmed, as platform and path; none with fewer than two parameters, a
/// platform that is not Windows, or an empty path.
pub open spec fn save_path_of(body: Seq<char>, f: UserFolders) -> Option<(Seq<char>, Seq<char>, Option<Seq<char>>)> {
    let ps = template_params(body);
    if ps.len() < 2 {
        None
    } else {
        let os = trimmed(ps[0]);
        let raw = trimmed(ps[1]);
        if !is_windows(os) || raw.len() == 0 {
            None
        } else {
            Some((os, raw, expanded_path(raw, f)))
        }
    }
}

/// The save paths the template bodies give, in order.
pub open spec fn save_paths_of(bodies: Seq<Seq<char>>, f: UserFolders) -> Seq<(Seq<char>, Seq<char>, Option<Seq<char>>)>
    decreases bodies.len(),
{
    if bodies.len() == 0 {
        Seq::empty()
    } else {
        let rest = save_paths_of(bodies.drop_last(), f);
        match save_path_of(bodies.last(), f) {
            Some(p) => rest.push(p),
            None => rest,
        }
    }
}

/// Text order: character by character (by code point, which is the byte
/// order of the UTF-8 form), a proper prefix first.
pub open spec fn text_le(a: Seq<char>, b: Seq<char>) -> bool
    decreases a.len(),
{
    if a.len() == 0 {
        true
    } else if b.len() == 0 {
        false
    } else if a[0] != b[0] {
        (a[0] as u32) < (b[0] as u32)
    } else {
        text_le(a.drop_first(), b.drop_first())
    }
}

/// The key a save path is ordered by: its expanded form, else the raw one.
pub open spec fn sort_key(p: (Seq<char>, Seq<char>, Option<Seq<char>>)) -> Seq<char> {
    match p.2 {
        Some(e) => e,
        None => p.1,
    }
}

/// `x` inserted into `s` after every element whose key is not greater.
pub open spec fn insert_sorted(s: Seq<(Seq<char>, Seq<char>, Option<Seq<char>>)>, x: (Seq<char>, Seq<char>, Option<Seq<char>>)) -> Seq<(Seq<char>, Seq<char>, Option<Seq<char>>)>
    decreases s.len(),
{
    if s.len() == 0 {
        seq![x]
    } else if text_le(sort_key(s.last()), sort_key(x)) {
        s.push(x)
    } else {
        insert_sorted(s.drop_last(), x).push(s.last())
    }
}

/// The stable sort of the save paths by key.
pub open spec fn sorted_paths(s: Seq<(Seq<char>, Seq<char>, Option<Seq<char>>)>) -> Seq<(Seq<char>, Seq<char>, Option<Seq<char>>)>
    decreases s.len(),
{
    if s.len() == 0 {
        s
    } else {
        insert_sorted(sorted_paths(s.drop_last()), s.last())
    }
}

/// Two save paths are the same entry: same platform, same raw path, and
/// the same expansion (a missing one counting as empty).
pub open spec fn same_entry(a: (Seq<char>, Seq<char>, Option<Seq<char>>), b: (Seq<char>, Seq<char>, Option<Seq<char>>)) -> bool {
    a.0 == b.0 && a.1 == b.1 && (match a.2 { Some(e) => e, None => Seq::empty() }) == (match b.2 { Some(e) => e, None => Seq::empty() })
}

/// The save paths with each run of the same entry kept once, the first.
pub open spec fn deduped(s: Seq<(Seq<char>, Seq<char>, Option<Seq<char>>)>) -> Seq<(Seq<char>, Seq<char>, Option<Seq<char>>)>
    decreases s.len(),
{
    if s.len() == 0 {
        s
    } else {
        let r = deduped(s.drop_last());
        if r.len() > 0 && same_entry(s.last(), r.last()) { r } else { r.push(s.last()) }
    }
}

fn text_le_exec(a: &Vec<char>, b: &Vec<char>) -> (r: bool)
    ensures
        r == text_le(a@, b@),
{
    let mut i: usize = 0;
    assert(a@.skip(0) =~= a@);
    assert(b@.skip(0) =~= b@);
    while i < a.len()
        invariant
            i <= a@.len(),
            text_le(a@, b@) == text_le(a@.skip(i as int), b@.skip(i as int)),
            i <= b@.len(),
        decreases a@.len() - i,
    {
        if i >= b.len() {
            return false;
        }
        if a[i] != b[i] {
            return (a[i] as u32) < (b[i] as u32);
        }
        assert(a@.skip(i as int).drop_first() =~= a@.skip(i + 1));
        assert(b@.skip(i as int).drop_first() =~= b@.skip(i + 1));
        i = i + 1;
    }
    true
}

fn key_chars(p: &PcgwSavePath) -> (r: Vec<char>)
    ensures
        r@ == sort_key(path_view(*p)),
{
    match &p.expanded {
        Some(e) => chars_of(e.as_str()),
        None => chars_of(p.raw.as_str()),
    }
}

fn copy_path(p: &PcgwSavePath) -> (r: PcgwSavePath)
    ensures
        path_view(r) == path_view(*p),
{
    PcgwSavePath {
        os: p.os.clone(),
        raw: p.raw.clone(),
        expanded: match &p.expanded {
            Some(e) => Some(e.clone()),
            None => None,
        },
    }
}

pub open spec fn paths_view(v: Seq<PcgwSavePath>) -> Seq<(Seq<char>, Seq<char>, Option<Seq<char>>)> {
    v.map_values(|p: PcgwSavePath| path_view(p))
}

/// Inserts `x` after every element whose key is not greater.
fn insert_path(v: &mut Vec<PcgwSavePath>, x: PcgwSavePath)
    ensures
        paths_view(final(v)@) == insert_sorted(paths_view(old(v)@), path_view(x)),
{
    let kx = key_chars(&x);
    let ghost orig = paths_view(v@);
    let mut tail: Vec<PcgwSavePath> = Vec::new();
    let mut done = false;
    while !done
        invariant
            kx@ == sort_key(path_view(x)),
            insert_sorted(orig, path_view(x)) == (if done {
                paths_view(v@)
            } else {
                insert_sorted(paths_view(v@), path_view(x))
            }) + paths_view(tail@).reverse(),
            done ==> paths_view(v@).len() > 0 && paths_view(v@).last() == path_view(x),
        decreases (if done { 0int } else { v@.len() as int + 1 }),
    {
        let ghost cur = paths_view(v@);
        let ghost tl = paths_view(tail@);
        if v.len() == 0 {
            assert(cur.len() == 0);
            assert(insert_sorted(cur, path_view(x)) == seq![path_view(x)]);
            v.push(copy_path(&x));
            assert(paths_view(v@) =~= seq![path_view(x)]);
            done = true;
        } else {
            let last_key = key_chars(&v[v.len() - 1]);
            assert(cur.last() == path_view(v@[v@.len() - 1]));
            if text_le_exec(&last_key, &kx) {
                assert(insert_sorted(cur, path_view(x)) == cur.push(path_view(x)));
                v.push(copy_path(&x));
                assert(paths_view(v@) =~= cur.push(path_view(x)));
                done = true;
            } else {
                assert(!text_le(sort_key(cur.last()), sort_key(path_view(x))));
                assert(insert_sorted(cur, path_view(x)) == insert_sorted(cur.drop_last(), path_view(x)).push(cur.last()));
                let last = v.pop().unwrap();
                assert(path_view(last) == cur.last());
                assert(paths_view(v@) =~= cur.drop_last());
                tail.push(last);
                assert(paths_view(tail@) =~= tl.push(cur.last()));
                assert(tl.push(cur.last()).reverse() =~= seq![cur.last()] + tl.reverse());
                assert(insert_sorted(cur.drop_last(), path_view(x)).push(cur.last()) + tl.reverse()
                    =~= insert_sorted(cur.drop_last(), path_view(x)) + (seq![cur.last()] + tl.reverse()));
            }
        }
    }
    while tail.len() > 0
        invariant
            insert_sorted(orig, path_view(x)) == paths_view(v@) + paths_view(tail@).reverse(),
        decreases tail@.len(),
    {
        let ghost cur = paths_view(v@);
        let ghost tl = paths_view(tail@);
        let t = tail.pop().unwrap();
        assert(paths_view(tail@) =~= tl.drop_last());
        v.push(t);
        assert(paths_view(v@) =~= cur.push(tl.last()));
        assert(tl.reverse() =~= seq![tl.last()] + tl.drop_last().reverse());
        assert(cur.push(tl.last()) + tl.drop_last().reverse() =~= cur + (seq![tl.last()] + tl.drop_last().reverse()));
    }
    assert(paths_view(tail@).reverse() =~= Seq::<(Seq<char>, Seq<char>, Option<Seq<char>>)>::empty());
    assert(paths_view(v@) + paths_view(tail@).reverse() =~= paths_view(v@));
}

/// The save paths sorted by key, stably.
fn sort_paths(v: Vec<PcgwSavePath>) -> (r: Vec<PcgwSavePath>)
    ensures
        paths_view(r@) == sorted_paths(paths_view(v@)),
{
    let mut out: Vec<PcgwSavePath> = Vec::new();
    let mut i: usize = 0;
    while i < v.len()
        invariant
            i <= v@.len(),
            paths_view(out@) == sorted_paths(paths_view(v@.take(i as int))),
        decreases v@.len() - i,
    {
        proof {
            assert(paths_view(v@.take(i + 1)).drop_last() =~= paths_view(v@.take(i as int)));
            assert(paths_view(v@.take(i + 1)).last() == path_view(v@[i as int]));
        }
        insert_path(&mut out, copy_path(&v[i]));
        i = i + 1;
    }
    assert(v@.take(v@.len() as int) =~= v@);
    out
}

fn same_entry_exec(a: &PcgwSavePath, b: &PcgwSavePath) -> (r: bool)
    ensures
        r == same_entry(path_view(*a), path_view(*b)),
{
    let ea = match &a.expanded { Some(e) => e.clone(), None => String::new() };
    let eb = match &b.expanded { Some(e) => e.clone(), None => String::new() };
    a.os == b.os && a.raw == b.raw && ea == eb
}

/// Each run of the same entry kept once, the first.
fn dedup_paths(v: Vec<PcgwSavePath>) -> (r: Vec<PcgwSavePath>)
    ensures
        paths_view(r@) == deduped(paths_view(v@)),
{
    let mut out: Vec<PcgwSavePath> = Vec::new();
    let mut i: usize = 0;
    while i < v.len()
        invariant
            i <= v@.len(),
            paths_view(out@) == deduped(paths_view(v@.take(i as int))),
        decreases v@.len() - i,
    {
        proof {
            assert(paths_view(v@.take(i + 1)).drop_last() =~= paths_view(v@.take(i as int)));
            assert(paths_view(v@.take(i + 1)).last() == path_view(v@[i as int]));
        }
        let keep = if out.len() == 0 {
            true
        } else {
            assert(paths_view(out@).last() == path_view(out@[out@.len() - 1]));
            !same_entry_exec(&v[i], &out[out.len() - 1])
        };
        if keep {
            let ghost before = paths_view(out@);
            out.push(copy_path(&v[i]));
            assert(paths_view(out@) =~= before.push(path_view(v@[i as int])));
        }
        i = i + 1;
    }
    assert(v@.take(v@.len() as int) =~= v@);
    out
}

/// The save path a template body gives, as `save_path_of` states.
fn save_path_from(body: &String, folders: &UserFolders) -> (r: Option<PcgwSavePath>)
    ensures
        match r {
            Some(p) => save_path_of(body@, *folders) == Some(path_view(p)),
            None => save_path_of(body@, *folders) is None,
        },
{
    let params = split_template_params(body.as_str());
    if params.len() < 2 {
        return None;
    }
    assert(params@.map_values(|p: String| p@)[0] == params@[0]@);
    assert(params@.map_values(|p: String| p@)[1] == params@[1]@);
    let os = trim(params[0].as_str());
    let raw = trim(params[1].as_str());
    let os_lc = lowercase(os.as_str());
    let windows = str_contains(os_lc.as_str(), "windows") || os_lc == String::from_str("win");
    if !windows || raw.as_str().unicode_len() == 0 {
        return None;
    }
    let expanded = expand_windows_path_tokens(raw.as_str(), folders);
    Some(PcgwSavePath { os, raw, expanded })
}

/// The save locations listed on a page: the Windows entries of its
/// `Game data/saves` templates, with tokens expanded, stably sorted by their
/// expanded (else raw) path, each run of the same entry kept once.
pub fn save_locations_from_wikitext(title: String, wikitext: &str, folders: &UserFolders) -> (r: PcgwSaveLocations)
    ensures
        r.title == title,
        paths_view(r.paths@) == deduped(sorted_paths(save_paths_of(
            templates_from(wikitext@, template_needle("Game data/saves"@), 0),
            *folders,
        ))),
{
    let bodies = extract_templates_named(wikitext, "Game data/saves");
    let ghost bv = bodies@.map_values(|b: String| b@);
    let mut paths: Vec<PcgwSavePath> = Vec::new();
    let mut i: usize = 0;
    while i < bodies.len()
        invariant
            i <= bodies@.len(),
            bv == bodies@.map_values(|b: String| b@),
            paths_view(paths@) == save_paths_of(bv.take(i as int), *folders),
        decreases bodies@.len() - i,
    {
        proof {
            assert(bv.take(i + 1).drop_last() =~= bv.take(i as int));
            assert(bv.take(i + 1).last() == bodies@[i as int]@);
        }
        let ghost before = paths_view(paths@);
        match save_path_from(&bodies[i], folders) {
            Some(p) => {
                paths.push(p);
                assert(paths_view(paths@) =~= before.push(path_view(paths@[paths@.len() - 1])));
            },
            None => {},
        }
        i = i + 1;
    }
    assert(bv.take(bv.len() as int) =~= bv);
    let sorted = sort_paths(paths);
    let paths = dedup_paths(sorted);
    PcgwSaveLocations { title, paths }
}

/// The page title to look up: the given title, trimmed; an error when
/// nothing is left.
pub fn lookup_title(title: &str) -> (r: Result<String, String>)
    ensures
        trimmed(title@).len() == 0 <==> r is Err,
        r is Ok ==> r->Ok_0@ == trimmed(title@),
        r is Err ==> r->Err_0@ == "Title is required"@,
{
    let t = trim(title);
    if t.as_str().unicode_len() == 0 {
        Err(String::from_str("Title is required"))
    } else {
        Ok(t)
    }
}

/// The number of search hits asked for: the given limit (8 when none),
/// clamped to between 1 and 20.
pub open spec fn search_limit_of(limit: Option<u32>) -> u32 {
    let l = match limit { Some(l) => l, None => 8 };
    if l < 1 { 1 } else if l > 20 { 20 } else { l }
}

/// The search to run: the trimmed query and the clamped limit; none when
/// the query is empty once trimmed, which yields no hits.
pub fn search_request(query: &str, limit: Option<u32>) -> (r: Option<(String, u32)>)
    ensures
        trimmed(query@).len() == 0 <==> r is None,
        match r {
            Some((q, l)) => q@ == trimmed(query@) && l == search_limit_of(limit),
            None => true,
        },
{
    let q = trim(query);
    if q.as_str().unicode_len() == 0 {
        return None;
    }
    let l = match limit { Some(l) => l, None => 8 };
    let l = if l < 1 { 1 } else if l > 20 { 20 } else { l };
    Some((q, l))
}

} // verus!
