use vstd::prelude::*;
use vstd::string::*;
use crate::text::{
    find_char, find_char_spec, lemma_find_char, strip_prefix, strip_prefix_spec, substring,
    trim_bounds, trim_spec, chars_of, is_white_space, trim_end_spec, lemma_find_char_at,
    lemma_find_char_none,
};

verus! {

/// The prefix of a Steam URL that launches a game by its id.
pub open spec fn steam_run_prefix() -> Seq<char> {
    "steam://rungameid/"@
}

/// The game id of a Steam launch URL: what follows `steam://rungameid/`.
pub open spec fn steam_id_spec(url: Seq<char>) -> Option<Seq<char>> {
    strip_prefix_spec(url, steam_run_prefix())
}

/// The Steam game id in `url`, where `url` starts with `steam://rungameid/`.
pub fn get_steam_id_from_url(url: &str) -> (r: Option<String>)
    ensures
        match r {
            Some(id) => steam_id_spec(url@) == Some(id@),
            None => steam_id_spec(url@) is None,
        },
{
    strip_prefix(url, "steam://rungameid/")
}

/// The id of a launch URL built from an id is that id, and a URL that yields an id
/// is the launch URL of that id.
pub proof fn lemma_steam_id_round_trip(id: Seq<char>, url: Seq<char>)
    ensures
        steam_id_spec(steam_run_prefix() + id) == Some(id),
        steam_id_spec(url) matches Some(found) ==> url == steam_run_prefix() + found,
{
    let p = steam_run_prefix();
    assert((p + id).take(p.len() as int) =~= p);
    assert((p + id).skip(p.len() as int) =~= id);
    if steam_id_spec(url) is Some {
        assert(url =~= url.take(p.len() as int) + url.skip(p.len() as int));
    }
}


/// The fields of a `.url` file as key and value views, in the order kept.
pub open spec fn pairs_view(v: Seq<(String, String)>) -> Seq<(Seq<char>, Seq<char>)> {
    v.map_values(|p: (String, String)| (p.0@, p.1@))
}

/// The map that a list of key/value pairs stands for: a later pair overrides an
/// earlier one with the same key.
pub open spec fn pairs_to_map(s: Seq<(Seq<char>, Seq<char>)>) -> Map<Seq<char>, Seq<char>>
    decreases s.len(),
{
    if s.len() == 0 {
        Map::empty()
    } else {
        pairs_to_map(s.drop_last()).insert(s.last().0, s.last().1)
    }
}

/// No key occurs twice.
pub open spec fn keys_distinct(s: Seq<(Seq<char>, Seq<char>)>) -> bool {
    forall|i: int, j: int| 0 <= i < s.len() && 0 <= j < s.len() && i != j ==> s[i].0 != s[j].0
}

/// With distinct keys, each pair is in the map.
proof fn lemma_pairs_lookup(s: Seq<(Seq<char>, Seq<char>)>, i: int)
    requires
        keys_distinct(s),
        0 <= i < s.len(),
    ensures
        pairs_to_map(s).contains_key(s[i].0),
        pairs_to_map(s)[s[i].0] == s[i].1,
    decreases s.len(),
{
    if i < s.len() - 1 {
        lemma_pairs_lookup(s.drop_last(), i);
    }
}

/// A key that no pair has is not in the map.
proof fn lemma_pairs_absent(s: Seq<(Seq<char>, Seq<char>)>, k: Seq<char>)
    requires
        forall|i: int| 0 <= i < s.len() ==> s[i].0 != k,
    ensures
        !pairs_to_map(s).contains_key(k),
    decreases s.len(),
{
    if s.len() > 0 {
        lemma_pairs_absent(s.drop_last(), k);
    }
}

/// Replacing the value of a pair whose key is `k` inserts the new value at `k`.
proof fn lemma_pairs_update(s: Seq<(Seq<char>, Seq<char>)>, j: int, k: Seq<char>, v: Seq<char>)
    requires
        keys_distinct(s),
        0 <= j < s.len(),
        s[j].0 == k,
    ensures
        pairs_to_map(s.update(j, (k, v))) == pairs_to_map(s).insert(k, v),
    decreases s.len(),
{
    let t = s.update(j, (k, v));
    if j == s.len() - 1 {
        assert(t.drop_last() =~= s.drop_last());
        assert(pairs_to_map(t) =~= pairs_to_map(s).insert(k, v));
    } else {
        assert(t.drop_last() =~= s.drop_last().update(j, (k, v)));
        lemma_pairs_update(s.drop_last(), j, k, v);
        assert(s.last().0 != k);
        assert(pairs_to_map(t) =~= pairs_to_map(s).insert(k, v));
    }
}

/// The fields of an Internet shortcut (`.url`) file: a map from keys to values in
/// which each key occurs once.
pub struct UrlFields {
    entries: Vec<(String, String)>,
}

impl UrlFields {
    /// The pairs held, as views.
    pub closed spec fn pairs(self) -> Seq<(Seq<char>, Seq<char>)> {
        pairs_view(self.entries@)
    }

    #[verifier::type_invariant]
    spec fn keys_unique(self) -> bool {
        keys_distinct(self.pairs())
    }

    /// No fields.
    pub fn new() -> (r: UrlFields)
        ensures
            r@ == Map::<Seq<char>, Seq<char>>::empty(),
    {
        let r = UrlFields { entries: Vec::new() };
        assert(r.pairs() =~= Seq::empty());
        r
    }

    /// Sets the value of `key` to `value`, replacing any earlier value.
    pub fn insert(&mut self, key: String, value: String)
        ensures
            final(self)@ == old(self)@.insert(key@, value@),
    {
        proof {
            use_type_invariant(&*self);
        }
        let ghost old_pairs = self.pairs();
        let mut i: usize = 0;
        while i < self.entries.len()
            invariant
                i <= self.entries@.len(),
                old_pairs == pairs_view(self.entries@),
                old_pairs == old(self).pairs(),
                keys_distinct(old_pairs),
                forall|k: int| 0 <= k < i ==> old_pairs[k].0 != key@,
            decreases self.entries@.len() - i,
        {
            if self.entries[i].0 == key {
                let ghost kv = key@;
                let ghost vv = value@;
                let mut entries: Vec<(String, String)> = Vec::new();
                std::mem::swap(&mut entries, &mut self.entries);
                entries.set(i, (key, value));
                proof {
                    assert(pairs_view(entries@) =~= old_pairs.update(i as int, (kv, vv)));
                    lemma_pairs_update(old_pairs, i as int, kv, vv);
                    assert forall|a: int, b: int|
                        0 <= a < pairs_view(entries@).len() && 0 <= b < pairs_view(entries@).len()
                            && a != b implies pairs_view(entries@)[a].0 != pairs_view(
                        entries@,
                    )[b].0 by {}
                }
                self.entries = entries;
                return;
            }
            i = i + 1;
        }
        let ghost kv = key@;
        let ghost vv = value@;
        let mut entries: Vec<(String, String)> = Vec::new();
        std::mem::swap(&mut entries, &mut self.entries);
        entries.push((key, value));
        proof {
            assert(pairs_view(entries@) =~= old_pairs.push((kv, vv)));
            assert(old_pairs.push((kv, vv)).drop_last() =~= old_pairs);
        }
        self.entries = entries;
    }

    /// The value of `key`, if it has one.
    pub fn get(&self, key: &str) -> (r: Option<String>)
        ensures
            match r {
                Some(v) => self@.contains_key(key@) && self@[key@] == v@,
                None => !self@.contains_key(key@),
            },
    {
        proof {
            use_type_invariant(self);
        }
        let k = String::from_str(key);
        let mut i: usize = 0;
        while i < self.entries.len()
            invariant
                i <= self.entries@.len(),
                k@ == key@,
                keys_distinct(self.pairs()),
                forall|j: int| 0 <= j < i ==> self.pairs()[j].0 != key@,
            decreases self.entries@.len() - i,
        {
            if self.entries[i].0 == k {
                proof {
                    lemma_pairs_lookup(self.pairs(), i as int);
                }
                return Some(self.entries[i].1.clone());
            }
            i = i + 1;
        }
        proof {
            lemma_pairs_absent(self.pairs(), key@);
        }
        None
    }

    /// The key/value pairs, each key once, in the order in which the keys first came.
    pub fn into_pairs(self) -> (r: Vec<(String, String)>)
        ensures
            keys_distinct(pairs_view(r@)),
            pairs_to_map(pairs_view(r@)) == self@,
    {
        proof {
            use_type_invariant(&self);
        }
        self.entries
    }
}

impl View for UrlFields {
    type V = Map<Seq<char>, Seq<char>>;

    closed spec fn view(&self) -> Map<Seq<char>, Seq<char>> {
        pairs_to_map(self.pairs())
    }
}


/// A line without the carriage return that ends it, if any.
pub open spec fn strip_cr(l: Seq<char>) -> Seq<char> {
    if l.len() > 0 && l.last() == '\r' {
        l.drop_last()
    } else {
        l
    }
}

/// The lines of a text, as `str::lines` splits it: at each `\n`, with a `\r` just
/// before the `\n` dropped, and no empty line after a final `\n`.
pub open spec fn lines_spec(s: Seq<char>) -> Seq<Seq<char>>
    decreases s.len(),
{
    if s.len() == 0 {
        Seq::empty()
    } else {
        match find_char_spec(s, '\n') {
            Some(i) => {
                proof {
                    lemma_find_char(s, '\n');
                }
                seq![strip_cr(s.take(i))] + lines_spec(s.skip(i + 1))
            },
            None => seq![s],
        }
    }
}

/// The field that a line gives, where it has a `=`: the trimmed text before the
/// first `=` as key, the trimmed text after it as value.
pub open spec fn line_field(l: Seq<char>) -> Option<(Seq<char>, Seq<char>)> {
    match find_char_spec(l, '=') {
        Some(i) => Some((trim_spec(l.take(i)), trim_spec(l.skip(i + 1)))),
        None => None,
    }
}

/// `m` with the field of line `l`, if it has one, set.
pub open spec fn apply_line(m: Map<Seq<char>, Seq<char>>, l: Seq<char>) -> Map<Seq<char>, Seq<char>> {
    match line_field(l) {
        Some((k, v)) => m.insert(k, v),
        None => m,
    }
}

/// `m` with the fields of the lines `ls` set in order, a later line overriding an
/// earlier one with the same key.
pub open spec fn fields_from(m: Map<Seq<char>, Seq<char>>, ls: Seq<Seq<char>>) -> Map<Seq<char>, Seq<char>>
    decreases ls.len(),
{
    if ls.len() == 0 {
        m
    } else {
        fields_from(apply_line(m, ls[0]), ls.drop_first())
    }
}

/// The fields that the content of a `.url` file holds.
pub open spec fn url_fields_spec(content: Seq<char>) -> Map<Seq<char>, Seq<char>> {
    fields_from(Map::empty(), lines_spec(content))
}

/// The fields of a `.url` file's content: for each line that holds a `=`, the
/// trimmed text before the first `=` maps to the trimmed text after it; a later
/// line overrides an earlier one with the same key.
pub fn parse_url_file(content: &str) -> (r: UrlFields)
    ensures
        r@ == url_fields_spec(content@),
{
    let v = chars_of(content);
    let n = v.len();
    let mut fields = UrlFields::new();
    let mut pos: usize = 0;
    assert(v@.skip(0) =~= v@);
    while pos < n
        invariant
            n == v@.len(),
            v@ == content@,
            pos <= n,
            fields_from(fields@, lines_spec(v@.skip(pos as int))) == url_fields_spec(content@),
        decreases n - pos,
    {
        let ghost rest = v@.skip(pos as int);
        assert(v@.subrange(pos as int, n as int) =~= rest);
        let found = find_char(&v, '\n', pos, n);
        let (end, next) = match found {
            Some(j) => {
                let e = if j > pos && v[j - 1] == '\r' {
                    j - 1
                } else {
                    j
                };
                proof {
                    let i = j - pos;
                    assert(rest.take(i) =~= v@.subrange(pos as int, j as int));
                    assert(rest.skip(i + 1) =~= v@.skip(j + 1));
                    assert(strip_cr(rest.take(i)) =~= v@.subrange(pos as int, e as int));
                }
                (e, j + 1)
            },
            None => {
                proof {
                    assert(v@.skip(n as int) =~= Seq::<char>::empty());
                }
                (n, n)
            },
        };
        let ghost line = v@.subrange(pos as int, end as int);
        assert(lines_spec(rest) == seq![line] + lines_spec(v@.skip(next as int)));
        assert((seq![line] + lines_spec(v@.skip(next as int))).drop_first() =~= lines_spec(
            v@.skip(next as int),
        ));
        let ghost before = fields@;
        match find_char(&v, '=', pos, end) {
            Some(k) => {
                let (kb, ke) = trim_bounds(&v, pos, k);
                let (vb, ve) = trim_bounds(&v, k + 1, end);
                let key = substring(content, kb, ke);
                let value = substring(content, vb, ve);
                proof {
                    assert(line.take(k - pos) =~= v@.subrange(pos as int, k as int));
                    assert(line.skip(k - pos + 1) =~= v@.subrange(k + 1, end as int));
                }
                fields.insert(key, value);
            },
            None => {},
        }
        assert(fields@ == apply_line(before, line));
        pos = next;
    }
    assert(lines_spec(v@.skip(pos as int)) =~= Seq::<Seq<char>>::empty());
    fields
}


/// The first occurrence of `c` in a text that holds one is where it is in any
/// longer text that starts with it.
proof fn lemma_find_char_prefix(a: Seq<char>, r: Seq<char>, c: char)
    requires
        find_char_spec(a, c) is Some,
    ensures
        find_char_spec(a + r, c) == find_char_spec(a, c),
{
    lemma_find_char(a, c);
    let i = find_char_spec(a, c)->0;
    assert((a + r)[i] == c);
    assert forall|k: int| 0 <= k < i implies (a + r)[k] != c by {
        assert((a + r)[k] == a[k]);
    }
    lemma_find_char_at(a + r, c, i);
}

/// The lines of a text made of whole lines, then more, are its lines then the
/// lines of the rest.
proof fn lemma_lines_concat(a: Seq<char>, r: Seq<char>)
    requires
        a.len() == 0 || a.last() == '\n',
    ensures
        lines_spec(a + r) == lines_spec(a) + lines_spec(r),
    decreases a.len(),
{
    if a.len() == 0 {
        assert(a + r =~= r);
        assert(lines_spec(a) + lines_spec(r) =~= lines_spec(r));
    } else {
        assert(a[a.len() - 1] == '\n');
        lemma_find_char(a, '\n');
        if find_char_spec(a, '\n') is None {
            assert(false);
        }
        let i = find_char_spec(a, '\n')->0;
        lemma_find_char_prefix(a, r, '\n');
        let rest = a.skip(i + 1);
        assert((a + r).take(i) =~= a.take(i));
        assert((a + r).skip(i + 1) =~= rest + r);
        if rest.len() > 0 {
            assert(rest.last() == a.last());
        }
        lemma_lines_concat(rest, r);
        assert(lines_spec(a + r) =~= lines_spec(a) + lines_spec(r));
    }
}

/// Reading lines `A` then lines `B` is reading `B` from where `A` left off.
proof fn lemma_fields_concat(m: Map<Seq<char>, Seq<char>>, la: Seq<Seq<char>>, lb: Seq<Seq<char>>)
    ensures
        fields_from(m, la + lb) == fields_from(fields_from(m, la), lb),
    decreases la.len(),
{
    if la.len() == 0 {
        assert(la + lb =~= lb);
    } else {
        assert((la + lb)[0] == la[0]);
        assert((la + lb).drop_first() =~= la.drop_first() + lb);
        lemma_fields_concat(apply_line(m, la[0]), la.drop_first(), lb);
    }
}

/// Reading more lines keeps every key already read.
proof fn lemma_fields_keep_keys(m: Map<Seq<char>, Seq<char>>, ls: Seq<Seq<char>>, k: Seq<char>)
    requires
        m.contains_key(k),
    ensures
        fields_from(m, ls).contains_key(k),
    decreases ls.len(),
{
    if ls.len() > 0 {
        lemma_fields_keep_keys(apply_line(m, ls[0]), ls.drop_first(), k);
    }
}

/// The lines of one line `l` ended by a line break.
proof fn lemma_lines_single(l: Seq<char>)
    requires
        has_no_newline(l),
    ensures
        lines_spec(l.push('\n')) == seq![strip_cr(l)],
{
    let s = l.push('\n');
    lemma_find_char_at(s, '\n', l.len() as int);
    assert(s.take(l.len() as int) =~= l);
    assert(s.skip(l.len() as int + 1) =~= Seq::<char>::empty());
    assert(seq![strip_cr(l)] + lines_spec(Seq::<char>::empty()) =~= seq![strip_cr(l)]);
}

/// A line with no `=` never adds, removes or changes a field, wherever it stands
/// among the lines of a `.url` file, and also as its last, unended line.
pub proof fn lemma_line_without_equals_changes_nothing(a: Seq<char>, l: Seq<char>, b: Seq<char>)
    requires
        a.len() == 0 || a.last() == '\n',
        forall|i: int| 0 <= i < l.len() ==> l[i] != '=' && l[i] != '\n',
    ensures
        url_fields_spec(a + l.push('\n') + b) == url_fields_spec(a + b),
        url_fields_spec(a + l) == url_fields_spec(a),
{
    let e = Map::<Seq<char>, Seq<char>>::empty();
    let ma = fields_from(e, lines_spec(a));
    // as a line among others
    lemma_lines_concat(a, l.push('\n') + b);
    assert(a + l.push('\n') + b =~= a + (l.push('\n') + b));
    lemma_lines_concat(l.push('\n'), b);
    lemma_lines_single(l);
    lemma_find_char_none(strip_cr(l), '=');
    assert(apply_line(ma, strip_cr(l)) == ma);
    lemma_fields_concat(e, lines_spec(a), lines_spec(l.push('\n') + b));
    lemma_fields_concat(ma, seq![strip_cr(l)], lines_spec(b));
    assert(fields_from(ma, seq![strip_cr(l)]) == fields_from(ma, seq![strip_cr(l)].drop_first()));
    assert(seq![strip_cr(l)].drop_first() =~= Seq::<Seq<char>>::empty());
    lemma_lines_concat(a, b);
    lemma_fields_concat(e, lines_spec(a), lines_spec(b));
    // as the last line
    lemma_lines_concat(a, l);
    if l.len() == 0 {
        assert(lines_spec(l) =~= Seq::<Seq<char>>::empty());
        assert(lines_spec(a) + lines_spec(l) =~= lines_spec(a));
    } else {
        lemma_find_char_none(l, '\n');
        lemma_find_char_none(l, '=');
        assert(lines_spec(l) == seq![l]);
        lemma_fields_concat(e, lines_spec(a), seq![l]);
        assert(seq![l].drop_first() =~= Seq::<Seq<char>>::empty());
    }
}

/// A `key=value` line read last sets the trimmed key to the trimmed value, and
/// the key stays in the fields whatever lines follow.
pub proof fn lemma_field_line_sets_field(a: Seq<char>, k: Seq<char>, v: Seq<char>, b: Seq<char>)
    requires
        a.len() == 0 || a.last() == '\n',
        forall|i: int| 0 <= i < k.len() ==> k[i] != '=' && k[i] != '\n',
        has_no_newline(v),
    ensures
        url_fields_spec(a + (k.push('=') + v).push('\n')) == url_fields_spec(a).insert(
            trim_spec(k),
            trim_spec(v),
        ),
        url_fields_spec(a + (k.push('=') + v).push('\n') + b).contains_key(trim_spec(k)),
{
    let e = Map::<Seq<char>, Seq<char>>::empty();
    let ma = fields_from(e, lines_spec(a));
    let line = k.push('=') + v;
    assert(has_no_newline(line)) by {
        assert forall|i: int| 0 <= i < line.len() implies line[i] != '\n' by {
            if i < k.len() {
                assert(line[i] == k[i]);
            } else if i > k.len() {
                assert(line[i] == v[i - k.len() - 1]);
            }
        }
    }
    lemma_field_line(k, v);
    let m1 = ma.insert(trim_spec(k), trim_spec(v));
    assert(apply_line(ma, strip_cr(line)) == m1);
    lemma_lines_single(line);
    lemma_lines_concat(a, line.push('\n'));
    lemma_fields_concat(e, lines_spec(a), seq![strip_cr(line)]);
    assert(seq![strip_cr(line)].drop_first() =~= Seq::<Seq<char>>::empty());
    assert(seq![strip_cr(line)][0] == strip_cr(line));
    assert(fields_from(ma, seq![strip_cr(line)]) == fields_from(
        m1,
        seq![strip_cr(line)].drop_first(),
    ));
    assert(fields_from(m1, Seq::<Seq<char>>::empty()) == m1);
    assert(fields_from(ma, seq![strip_cr(line)]) == m1);
    assert(url_fields_spec(a + line.push('\n')) == fields_from(e, lines_spec(a) + seq![strip_cr(line)]));
    // followed by more lines
    assert(a + line.push('\n') + b =~= a + (line.push('\n') + b));
    lemma_lines_concat(a, line.push('\n') + b);
    lemma_lines_concat(line.push('\n'), b);
    lemma_fields_concat(e, lines_spec(a), lines_spec(line.push('\n') + b));
    lemma_fields_concat(ma, seq![strip_cr(line)], lines_spec(b));
    assert(lines_spec(line.push('\n') + b) == seq![strip_cr(line)] + lines_spec(b));
    assert(url_fields_spec(a + line.push('\n') + b) == fields_from(m1, lines_spec(b)));
    lemma_fields_keep_keys(m1, lines_spec(b), trim_spec(k));
}

/// The views of an optional string.
pub open spec fn opt_view(o: Option<&str>) -> Option<Seq<char>> {
    match o {
        Some(s) => Some(s@),
        None => None,
    }
}

/// The content of an Internet shortcut file for `url`, with an optional `ID` line
/// and, where an icon is given, `IconFile` and `IconIndex=0` lines.
pub open spec fn url_file_content_spec(
    url: Seq<char>,
    id: Option<Seq<char>>,
    icon: Option<Seq<char>>,
) -> Seq<char> {
    "[InternetShortcut]\n"@ + ("URL="@ + url + "\n"@) + match id {
        Some(i) => "ID="@ + i + "\n"@,
        None => Seq::empty(),
    } + match icon {
        Some(p) => "IconFile="@ + p + "\n"@ + "IconIndex=0\n"@,
        None => Seq::empty(),
    }
}

/// The content of a `.url` file that opens `url`, with the game `id` and the icon
/// file `icon_path` where they are given.
pub fn url_file_content(url: &str, id: Option<&str>, icon_path: Option<&str>) -> (r: String)
    ensures
        r@ == url_file_content_spec(url@, opt_view(id), opt_view(icon_path)),
{
    let mut content = String::from_str("[InternetShortcut]\n");
    content.append("URL=");
    content.append(url);
    content.append("\n");
    let ghost after_url = content@;
    match id {
        Some(id_val) => {
            content.append("ID=");
            content.append(id_val);
            content.append("\n");
        },
        None => {},
    }
    let ghost after_id = content@;
    match icon_path {
        Some(icon_path_val) => {
            content.append("IconFile=");
            content.append(icon_path_val);
            content.append("\n");
            content.append("IconIndex=0\n");
        },
        None => {},
    }
    proof {
        let i_part = match opt_view(id) {
            Some(i) => "ID="@ + i + "\n"@,
            None => Seq::empty(),
        };
        let c_part = match opt_view(icon_path) {
            Some(p) => "IconFile="@ + p + "\n"@ + "IconIndex=0\n"@,
            None => Seq::empty(),
        };
        assert(after_url =~= "[InternetShortcut]\n"@ + ("URL="@ + url@ + "\n"@));
        assert(after_id =~= after_url + i_part);
        assert(content@ =~= after_id + c_part);
    }
    content
}

/// Every `.url` file written starts with the `[InternetShortcut]` section header
/// line and then the `URL=` line; the `ID=` line, where an id is given, comes right
/// after; where an icon is given, the file ends with the `IconFile=` and
/// `IconIndex=0` lines; with neither, the file is just those first two lines.
pub proof fn lemma_url_file_layout(url: Seq<char>, id: Option<Seq<char>>, icon: Option<Seq<char>>)
    ensures
        ({
            let c = url_file_content_spec(url, id, icon);
            let head = "[InternetShortcut]\n"@ + "URL="@ + url + "\n"@;
            &&& c.len() >= head.len()
            &&& c.take(head.len() as int) == head
            &&& (id matches Some(i) ==> c.skip(head.len() as int).take(("ID="@ + i + "\n"@).len() as int)
                == "ID="@ + i + "\n"@)
            &&& (icon matches Some(p) ==> {
                let t = "IconFile="@ + p + "\n"@ + "IconIndex=0\n"@;
                c.len() >= t.len() && c.skip(c.len() - t.len()) == t
            })
            &&& (id is None && icon is None ==> c == head)
        }),
{
    let c = url_file_content_spec(url, id, icon);
    let head = "[InternetShortcut]\n"@ + "URL="@ + url + "\n"@;
    let i_part = match id {
        Some(i) => "ID="@ + i + "\n"@,
        None => Seq::empty(),
    };
    let c_part = match icon {
        Some(p) => "IconFile="@ + p + "\n"@ + "IconIndex=0\n"@,
        None => Seq::empty(),
    };
    assert(c =~= head + i_part + c_part);
    assert(c.take(head.len() as int) =~= head);
    assert(c.skip(head.len() as int) =~= i_part + c_part);
    assert((i_part + c_part).take(i_part.len() as int) =~= i_part);
    assert(c.skip(c.len() - c_part.len()) =~= c_part);
    if id is None && icon is None {
        assert(c =~= head);
    }
}

/// No line break in `s`.
pub open spec fn has_no_newline(s: Seq<char>) -> bool {
    forall|i: int| 0 <= i < s.len() ==> s[i] != '\n'
}

/// The fields that reading back a written `.url` file gives.
pub open spec fn written_url_fields(
    url: Seq<char>,
    id: Option<Seq<char>>,
    icon: Option<Seq<char>>,
) -> Map<Seq<char>, Seq<char>> {
    let m1 = Map::empty().insert("URL"@, trim_spec(url));
    let m2 = match id {
        Some(i) => m1.insert("ID"@, trim_spec(i)),
        None => m1,
    };
    match icon {
        Some(p) => m2.insert("IconFile"@, trim_spec(p)).insert("IconIndex"@, "0"@),
        None => m2,
    }
}

/// Reading the fields of a text that starts with the line `a` applies that line first.
proof fn lemma_fields_first_line(m: Map<Seq<char>, Seq<char>>, a: Seq<char>, rest: Seq<char>)
    requires
        has_no_newline(a),
    ensures
        fields_from(m, lines_spec(a.push('\n') + rest)) == fields_from(
            apply_line(m, strip_cr(a)),
            lines_spec(rest),
        ),
{
    let s = a.push('\n') + rest;
    lemma_find_char_at(s, '\n', a.len() as int);
    assert(s.take(a.len() as int) =~= a);
    assert(s.skip(a.len() as int + 1) =~= rest);
    let ls = seq![strip_cr(a)] + lines_spec(rest);
    assert(lines_spec(s) == ls);
    assert(ls.drop_first() =~= lines_spec(rest));
}

/// A line `key=x` gives the field from the trimmed key to the trimmed `x`, whether
/// or not a carriage return ends it.
proof fn lemma_field_line(key: Seq<char>, x: Seq<char>)
    requires
        forall|i: int| 0 <= i < key.len() ==> key[i] != '=',
    ensures
        line_field(strip_cr(key.push('=') + x)) == Some((trim_spec(key), trim_spec(x))),
{
    let l = key.push('=') + x;
    let y = if x.len() > 0 && x.last() == '\r' {
        x.drop_last()
    } else {
        x
    };
    assert(strip_cr(l) =~= key.push('=') + y);
    let sl = key.push('=') + y;
    lemma_find_char_at(sl, '=', key.len() as int);
    assert(sl.take(key.len() as int) =~= key);
    assert(sl.skip(key.len() as int + 1) =~= y);
    if x.len() > 0 && x.last() == '\r' {
        assert(is_white_space(x.last()));
        assert(trim_end_spec(x) == trim_end_spec(x.drop_last()));
    }
}

/// Reading back what `url_file_content` writes gives the URL, the id and the icon
/// file, each trimmed, and `IconIndex` 0, where none of them holds a line break.
pub proof fn lemma_url_file_round_trip(url: Seq<char>, id: Option<Seq<char>>, icon: Option<Seq<char>>)
    requires
        has_no_newline(url),
        id matches Some(i) ==> has_no_newline(i),
        icon matches Some(p) ==> has_no_newline(p),
    ensures
        url_fields_spec(url_file_content_spec(url, id, icon)) == written_url_fields(url, id, icon),
{
    reveal_strlit("[InternetShortcut]\n");
    reveal_strlit("URL=");
    reveal_strlit("\n");
    reveal_strlit("ID=");
    reveal_strlit("IconFile=");
    reveal_strlit("IconIndex=0\n");
    reveal_strlit("URL");
    reveal_strlit("ID");
    reveal_strlit("IconFile");
    reveal_strlit("IconIndex");
    reveal_strlit("0");
    let header = "[InternetShortcut]\n"@.drop_last();
    let url_line = "URL"@.push('=') + url;
    let i_part = match id {
        Some(i) => "ID="@ + i + "\n"@,
        None => Seq::empty(),
    };
    let c_part = match icon {
        Some(p) => "IconFile="@ + p + "\n"@ + "IconIndex=0\n"@,
        None => Seq::empty(),
    };
    let content = url_file_content_spec(url, id, icon);
    assert(content =~= header.push('\n') + (url_line.push('\n') + (i_part + c_part)));
    let empty = Map::<Seq<char>, Seq<char>>::empty();
    // the header line
    assert(has_no_newline(header));
    lemma_fields_first_line(empty, header, url_line.push('\n') + (i_part + c_part));
    lemma_find_char_none(header, '=');
    assert(strip_cr(header) == header);
    // the URL line
    assert(has_no_newline(url_line));
    lemma_fields_first_line(empty, url_line, i_part + c_part);
    lemma_field_line("URL"@, url);
    assert(trim_spec("URL"@) == "URL"@);
    let m1 = empty.insert("URL"@, trim_spec(url));
    assert(fields_from(empty, lines_spec(content)) == fields_from(m1, lines_spec(i_part + c_part)));
    // the ID line
    let m2 = match id {
        Some(i) => m1.insert("ID"@, trim_spec(i)),
        None => m1,
    };
    match id {
        Some(i) => {
            let id_line = "ID"@.push('=') + i;
            assert(i_part + c_part =~= id_line.push('\n') + c_part);
            assert(has_no_newline(id_line));
            lemma_fields_first_line(m1, id_line, c_part);
            lemma_field_line("ID"@, i);
            assert(trim_spec("ID"@) == "ID"@);
        },
        None => {
            assert(i_part + c_part =~= c_part);
        },
    }
    assert(fields_from(m1, lines_spec(i_part + c_part)) == fields_from(m2, lines_spec(c_part)));
    // the icon lines
    match icon {
        Some(p) => {
            let file_line = "IconFile"@.push('=') + p;
            let index_line = "IconIndex"@.push('=') + "0"@;
            assert(c_part =~= file_line.push('\n') + (index_line.push('\n') + Seq::empty()));
            assert(has_no_newline(file_line));
            assert(has_no_newline(index_line));
            lemma_fields_first_line(m2, file_line, index_line.push('\n') + Seq::empty());
            lemma_field_line("IconFile"@, p);
            assert(trim_spec("IconFile"@) == "IconFile"@);
            let m3 = m2.insert("IconFile"@, trim_spec(p));
            lemma_fields_first_line(m3, index_line, Seq::empty());
            lemma_field_line("IconIndex"@, "0"@);
            assert(trim_spec("IconIndex"@) == "IconIndex"@);
            assert(trim_spec("0"@) == "0"@);
            assert(lines_spec(Seq::<char>::empty()) =~= Seq::<Seq<char>>::empty());
        },
        None => {
            assert(lines_spec(c_part) =~= Seq::<Seq<char>>::empty());
        },
    }
}

} // verus!
