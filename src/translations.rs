//! The translation catalog: per locale, a table from key to text.
use vstd::prelude::*;
use crate::text::{
    chars_of, lemma_pieces_nonempty, pieces, same_chars, split_on, string_from_chars, sub_chars,
    views,
};

verus! {

/// The texts of one locale.
#[derive(Clone, Debug)]
pub struct LocaleTable {
    pub locale: String,
    pub entries: Vec<(String, String)>,
}

/// Translation tables, at most one per locale, each key at most once per table.
#[derive(Clone, Debug)]
pub struct Translations {
    pub strings: Vec<LocaleTable>,
}

pub type EntriesModel = Seq<(Seq<char>, Seq<char>)>;

pub open spec fn entries_view(e: Seq<(String, String)>) -> EntriesModel {
    e.map_values(|p: (String, String)| (p.0@, p.1@))
}

pub open spec fn tables_view(t: Seq<LocaleTable>) -> Seq<(Seq<char>, EntriesModel)> {
    t.map_values(|l: LocaleTable| (l.locale@, entries_view(l.entries@)))
}

/// The value stored under `key` in an association list (the first one).
pub open spec fn assoc<V>(s: Seq<(Seq<char>, V)>, key: Seq<char>) -> Option<V>
    decreases s.len(),
{
    if s.len() == 0 {
        None
    } else if s[0].0 == key {
        Some(s[0].1)
    } else {
        assoc(s.drop_first(), key)
    }
}

/// No key occurs twice.
pub open spec fn keys_unique<V>(s: Seq<(Seq<char>, V)>) -> bool {
    forall|i: int, j: int| 0 <= i < j < s.len() ==> #[trigger] s[i].0 != #[trigger] s[j].0
}

/// In a list without repeated keys, the value under a key is the one at the
/// key's position, and there is none where the key does not occur.
pub proof fn lemma_assoc_unique<V>(s: Seq<(Seq<char>, V)>, key: Seq<char>)
    requires
        keys_unique(s),
    ensures
        forall|i: int| 0 <= i < s.len() && #[trigger] s[i].0 == key ==> assoc(s, key) == Some(s[i].1),
        (forall|i: int| 0 <= i < s.len() ==> #[trigger] s[i].0 != key) ==> assoc(s, key) is None,
    decreases s.len(),
{
    if s.len() > 0 {
        let t = s.drop_first();
        assert(keys_unique(t)) by {
            assert forall|i: int, j: int| 0 <= i < j < t.len() implies #[trigger] t[i].0 != #[trigger] t[j].0 by {
                assert(t[i] == s[i + 1] && t[j] == s[j + 1]);
            }
        }
        lemma_assoc_unique(t, key);
        assert forall|i: int| 0 <= i < s.len() && #[trigger] s[i].0 == key implies assoc(s, key) == Some(s[i].1) by {
            if i > 0 {
                assert(s[0].0 != s[i].0);
                assert(t[i - 1] == s[i]);
            }
        }
        if forall|i: int| 0 <= i < s.len() ==> #[trigger] s[i].0 != key {
            assert forall|i: int| 0 <= i < t.len() implies #[trigger] t[i].0 != key by {
                assert(t[i] == s[i + 1]);
            }
        }
    }
}

/// The table of `locale` among `tables`.
pub open spec fn table_in(tables: Seq<(Seq<char>, EntriesModel)>, locale: Seq<char>) -> Option<EntriesModel> {
    assoc(tables, locale)
}

/// The text of `key` in a table.
pub open spec fn entry_in(entries: EntriesModel, key: Seq<char>) -> Option<Seq<char>> {
    assoc(entries, key)
}

impl Translations {
    pub open spec fn tables(&self) -> Seq<(Seq<char>, EntriesModel)> {
        tables_view(self.strings@)
    }

    /// The table of a locale.
    pub open spec fn table(&self, locale: Seq<char>) -> Option<EntriesModel> {
        table_in(self.tables(), locale)
    }

    /// The text of a key in a locale.
    pub open spec fn lookup(&self, locale: Seq<char>, key: Seq<char>) -> Option<Seq<char>> {
        match self.table(locale) {
            Some(t) => entry_in(t, key),
            None => None,
        }
    }

    /// No locale twice, no key twice within a table.
    pub open spec fn wf(&self) -> bool {
        &&& keys_unique(self.tables())
        &&& forall|t: int| 0 <= t < self.tables().len() ==> keys_unique(#[trigger] self.tables()[t].1)
    }

    /// An empty catalog.
    pub fn new() -> (r: Translations)
        ensures
            r.wf(),
            forall|l: Seq<char>| r.table(l) is None,
    {
        Translations { strings: Vec::new() }
    }

    /// Sets the text of `key` in `locale`, adding the locale's table if needed;
    /// a later text of a key replaces an earlier one.
    pub fn insert(&mut self, locale: String, key: String, text: String)
        requires
            old(self).wf(),
        ensures
            final(self).wf(),
            forall|l: Seq<char>, k: Seq<char>| #[trigger] final(self).lookup(l, k)
                == if l == locale@ && k == key@ { Some(text@) } else { old(self).lookup(l, k) },
            forall|l: Seq<char>| (#[trigger] final(self).table(l) is Some)
                == (old(self).table(l) is Some || l == locale@),
    {
        let ghost o = self.tables();
        let ghost lv = locale@;
        let ghost kk = key@;
        let ghost tv = text@;
        match self.table_index(&chars_of(locale.as_str())) {
            Some(t) => {
                let mut tbl = LocaleTable { locale: String::new(), entries: Vec::new() };
                self.strings.set_and_swap(t, &mut tbl);
                let ghost e = entries_view(tbl.entries@);
                assert(keys_unique(e)) by {
                    assert(o[t as int].1 == e);
                }
                put_entry(&mut tbl.entries, key, text);
                let ghost e2 = entries_view(tbl.entries@);
                let ghost before = self.strings@;
                let ghost tb = tbl;
                self.strings.set(t, tbl);
                let ghost n = self.tables();
                assert(self.strings@ == before.update(t as int, tb));
                assert(n =~= o.update(t as int, (lv, e2)));
                assert forall|a: int| 0 <= a < n.len() implies #[trigger] n[a].0 == o[a].0 by {}
                assert forall|a: int| 0 <= a < n.len() implies keys_unique(#[trigger] n[a].1) by {
                    if a != t {
                        assert(n[a] == o[a]);
                    }
                }
                assert forall|l: Seq<char>| #[trigger] assoc(n, l)
                    == if l == lv { Some(e2) } else { assoc(o, l) } by {
                    lemma_assoc_unique(o, l);
                    lemma_assoc_unique(n, l);
                    if l == lv {
                        assert(n[t as int].0 == l);
                    } else if exists|j: int| 0 <= j < o.len() && o[j].0 == l {
                        let j = choose|j: int| 0 <= j < o.len() && o[j].0 == l;
                        assert(n[j] == o[j]);
                    }
                }
                assert(assoc(o, lv) == Some(e));
                assert forall|l: Seq<char>, k: Seq<char>| #[trigger] self.lookup(l, k)
                    == if l == lv && k == kk { Some(tv) } else { old(self).lookup(l, k) } by {
                    assert(assoc(n, l) == if l == lv { Some(e2) } else { assoc(o, l) });
                    assert(assoc(e2, k) == if k == kk { Some(tv) } else { assoc(e, k) });
                    assert(self.table(l) == assoc(n, l));
                    assert(old(self).table(l) == assoc(o, l));
                    if l == lv {
                        assert(self.lookup(l, k) == assoc(e2, k));
                        assert(old(self).lookup(l, k) == assoc(e, k));
                    } else {
                        assert(self.lookup(l, k) == old(self).lookup(l, k));
                    }
                }
                assert forall|l: Seq<char>| (#[trigger] self.table(l) is Some)
                    == (old(self).table(l) is Some || l == lv) by {
                    assert(assoc(n, l) == if l == lv { Some(e2) } else { assoc(o, l) });
                }
            },
            None => {
                let mut entries: Vec<(String, String)> = Vec::new();
                entries.push((key, text));
                let ghost e2 = entries_view(entries@);
                assert(e2 =~= seq![(kk, tv)]);
                let ghost before = self.strings@;
                let tb = LocaleTable { locale, entries };
                let ghost gtb = tb;
                self.strings.push(tb);
                let ghost n = self.tables();
                assert(self.strings@ == before.push(gtb));
                assert(n =~= o.push((lv, e2)));
                proof {
                    lemma_assoc_unique(o, lv);
                }
                assert forall|a: int| 0 <= a < o.len() implies #[trigger] o[a].0 != lv by {}
                assert(keys_unique(n)) by {
                    assert forall|a: int, b: int| 0 <= a < b < n.len() implies #[trigger] n[a].0 != #[trigger] n[b].0 by {
                        if b == o.len() {
                            assert(n[a] == o[a]);
                        } else {
                            assert(n[a] == o[a] && n[b] == o[b]);
                        }
                    }
                }
                assert forall|a: int| 0 <= a < n.len() implies keys_unique(#[trigger] n[a].1) by {
                    if a < o.len() {
                        assert(n[a] == o[a]);
                    }
                }
                assert forall|l: Seq<char>| #[trigger] assoc(n, l)
                    == if l == lv { Some(e2) } else { assoc(o, l) } by {
                    lemma_assoc_unique(o, l);
                    lemma_assoc_unique(n, l);
                    if l == lv {
                        assert(n[o.len() as int].0 == l);
                    } else if exists|j: int| 0 <= j < o.len() && o[j].0 == l {
                        let j = choose|j: int| 0 <= j < o.len() && o[j].0 == l;
                        assert(n[j] == o[j]);
                    } else {
                        assert forall|j: int| 0 <= j < n.len() implies #[trigger] n[j].0 != l by {
                            if j < o.len() {
                                assert(n[j] == o[j]);
                            }
                        }
                    }
                }
                assert forall|l: Seq<char>, k: Seq<char>| #[trigger] self.lookup(l, k)
                    == if l == lv && k == kk { Some(tv) } else { old(self).lookup(l, k) } by {
                    assert(assoc(n, l) == if l == lv { Some(e2) } else { assoc(o, l) });
                    if l == lv {
                        assert(assoc(o, l) is None);
                        assert(e2.drop_first().len() == 0);
                        assert(assoc(e2.drop_first(), k) is None);
                        assert(assoc(e2, k) == if k == kk { Some(tv) } else { None::<Seq<char>> });
                    }
                }
                assert forall|l: Seq<char>| (#[trigger] self.table(l) is Some)
                    == (old(self).table(l) is Some || l == lv) by {
                    assert(assoc(n, l) == if l == lv { Some(e2) } else { assoc(o, l) });
                }
            },
        }
    }

    /// Builds the catalog from the text of a `key;text;locale` file. The first
    /// line is a header; lines without exactly three fields are skipped; the
    /// last line for a locale and key gives its text.
    pub fn from_csv_text(text: &str) -> (r: Translations)
        ensures
            r.wf(),
            forall|l: Seq<char>, k: Seq<char>| #[trigger] r.lookup(l, k) == last_text(data_lines(text@), l, k),
            forall|l: Seq<char>| (#[trigger] r.table(l) is Some) == has_locale(data_lines(text@), l),
    {
        let lines = text_lines(&chars_of(text));
        let ghost dl = data_lines(text@);
        let mut r = Translations::new();
        if lines.len() == 0 {
            assert forall|l: Seq<char>| (#[trigger] r.table(l) is Some) == has_locale(dl, l) by {}
            return r;
        }
        let mut i: usize = 1;
        assert(dl.subrange(0, 0) =~= Seq::<Seq<char>>::empty());
        while i < lines.len()
            invariant
                1 <= i <= lines@.len(),
                views(lines@) == lines_of(text@),
                dl == views(lines@).drop_first(),
                r.wf(),
                forall|l: Seq<char>, k: Seq<char>| #[trigger] r.lookup(l, k) == last_text(dl.subrange(0, i - 1), l, k),
                forall|l: Seq<char>| (#[trigger] r.table(l) is Some) == has_locale(dl.subrange(0, i - 1), l),
            decreases lines@.len() - i,
        {
            let ghost prev = dl.subrange(0, i - 1);
            let ghost line = lines@[i as int]@;
            let ghost cur = dl.subrange(0, i as int);
            assert(cur =~= prev.push(line));
            assert(cur.drop_last() =~= prev);
            let ghost r0 = r;
            let fields = split_on(&lines[i], ';');
            if fields.len() == 3 {
                assert(fields@[0]@ == pieces(line, ';')[0]);
                assert(fields@[1]@ == pieces(line, ';')[1]);
                assert(fields@[2]@ == pieces(line, ';')[2]);
                r.insert(string_from_chars(&fields[2]), string_from_chars(&fields[0]), string_from_chars(&fields[1]));
            }
            assert forall|l: Seq<char>, k: Seq<char>| #[trigger] r.lookup(l, k) == last_text(cur, l, k) by {
                assert(r0.lookup(l, k) == last_text(prev, l, k));
            }
            assert forall|l: Seq<char>| (#[trigger] r.table(l) is Some) == has_locale(cur, l) by {
                assert(r0.table(l) is Some == has_locale(prev, l));
                lemma_has_locale_push(prev, line, l);
            }
            i = i + 1;
        }
        assert(dl.subrange(0, lines@.len() - 1) =~= dl);
        r
    }

    fn table_index(&self, locale: &Vec<char>) -> (r: Option<usize>)
        ensures
            r is Some ==> r->0 < self.strings@.len() && self.table(locale@) == Some(
                entries_view(self.strings@[r->0 as int].entries@),
            ) && self.strings@[r->0 as int].locale@ == locale@,
            r is None ==> self.table(locale@) is None,
    {
        let mut i: usize = 0;
        assert(self.tables().subrange(0, self.strings@.len() as int) =~= self.tables());
        while i < self.strings.len()
            invariant
                i <= self.strings@.len(),
                self.table(locale@) == table_in(
                    self.tables().subrange(i as int, self.strings@.len() as int),
                    locale@,
                ),
            decreases self.strings@.len() - i,
        {
            let ghost rest = self.tables().subrange(i as int, self.strings@.len() as int);
            assert(rest.drop_first() =~= self.tables().subrange(i + 1, self.strings@.len() as int));
            assert(rest[0] == self.tables()[i as int]);
            if same_chars(&chars_of(self.strings[i].locale.as_str()), locale) {
                return Some(i);
            }
            i = i + 1;
        }
        None
    }

    /// The text of `key` in `locale`.
    pub fn get(&self, locale: &str, key: &str) -> (r: Option<&str>)
        ensures
            r is Some ==> self.lookup(locale@, key@) == Some(r->0@),
            r is None ==> self.lookup(locale@, key@) is None,
    {
        let t = match self.table_index(&chars_of(locale)) {
            Some(t) => t,
            None => return None,
        };
        let entries = &self.strings[t].entries;
        let k = chars_of(key);
        let ghost ev = entries_view(entries@);
        let mut i: usize = 0;
        assert(ev.subrange(0, entries@.len() as int) =~= ev);
        while i < entries.len()
            invariant
                i <= entries@.len(),
                ev == entries_view(entries@),
                k@ == key@,
                self.lookup(locale@, key@) == entry_in(ev.subrange(i as int, entries@.len() as int), key@),
            decreases entries@.len() - i,
        {
            let ghost rest = ev.subrange(i as int, entries@.len() as int);
            assert(rest.drop_first() =~= ev.subrange(i + 1, entries@.len() as int));
            assert(rest[0] == ev[i as int]);
            if same_chars(&chars_of(entries[i].0.as_str()), &k) {
                return Some(entries[i].1.as_str());
            }
            i = i + 1;
        }
        None
    }

    /// A copy of the table of `locale`, else of `fallback`, else an empty table.
    pub fn get_locale_with_fallback(&self, locale: &str, fallback: &str) -> (r: Vec<(String, String)>)
        ensures
            entries_view(r@) == match self.table(locale@) {
                Some(t) => t,
                None => match self.table(fallback@) {
                    Some(t) => t,
                    None => Seq::<(Seq<char>, Seq<char>)>::empty(),
                },
            },
    {
        let t = match self.table_index(&chars_of(locale)) {
            Some(t) => t,
            None => match self.table_index(&chars_of(fallback)) {
                Some(t) => t,
                None => return Vec::new(),
            },
        };
        copy_entries(&self.strings[t].entries)
    }
}

/// A line without a trailing carriage return.
pub open spec fn strip_cr(l: Seq<char>) -> Seq<char> {
    if l.len() > 0 && l.last() == '\r' {
        l.drop_last()
    } else {
        l
    }
}

/// The lines of a text, as `str::lines` gives them: split at `\n`, a `\r`
/// before the `\n` dropped, no empty line after a final `\n`.
pub open spec fn lines_of(s: Seq<char>) -> Seq<Seq<char>> {
    let p = pieces(s, '\n');
    let body = p.drop_last().map_values(|l: Seq<char>| strip_cr(l));
    if p.last().len() == 0 {
        body
    } else {
        body.push(p.last())
    }
}

/// The lines after the header line.
pub open spec fn data_lines(s: Seq<char>) -> Seq<Seq<char>> {
    let l = lines_of(s);
    if l.len() == 0 {
        l
    } else {
        l.drop_first()
    }
}

/// The record of a line of exactly three `;`-separated fields: key, text, locale.
pub open spec fn record_of(line: Seq<char>) -> Option<(Seq<char>, Seq<char>, Seq<char>)> {
    let f = pieces(line, ';');
    if f.len() == 3 {
        Some((f[0], f[1], f[2]))
    } else {
        None
    }
}

/// The text of the last record among `lines` for `locale` and `key`.
pub open spec fn last_text(lines: Seq<Seq<char>>, locale: Seq<char>, key: Seq<char>) -> Option<Seq<char>>
    decreases lines.len(),
{
    if lines.len() == 0 {
        None
    } else {
        match record_of(lines.last()) {
            Some(r) => if r.2 == locale && r.0 == key {
                Some(r.1)
            } else {
                last_text(lines.drop_last(), locale, key)
            },
            None => last_text(lines.drop_last(), locale, key),
        }
    }
}

/// The locale of a line's record.
pub open spec fn record_locale(line: Seq<char>) -> Option<Seq<char>> {
    match record_of(line) {
        Some(r) => Some(r.2),
        None => None,
    }
}

/// Whether some record among `lines` is for `locale`.
pub open spec fn has_locale(lines: Seq<Seq<char>>, locale: Seq<char>) -> bool {
    exists|i: int| 0 <= i < lines.len() && #[trigger] record_locale(lines[i]) == Some(locale)
}

proof fn lemma_has_locale_push(prev: Seq<Seq<char>>, line: Seq<char>, l: Seq<char>)
    ensures
        has_locale(prev.push(line), l) == (has_locale(prev, l) || record_locale(line) == Some(l)),
{
    let cur = prev.push(line);
    if has_locale(cur, l) {
        let i = choose|i: int| 0 <= i < cur.len() && #[trigger] record_locale(cur[i]) == Some(l);
        if i < prev.len() {
            assert(cur[i] == prev[i]);
        }
    }
    if has_locale(prev, l) {
        let i = choose|i: int| 0 <= i < prev.len() && #[trigger] record_locale(prev[i]) == Some(l);
        assert(cur[i] == prev[i]);
    }
    if record_locale(line) == Some(l) {
        assert(cur[prev.len() as int] == line);
    }
}

fn strip_carriage_return(l: &Vec<char>) -> (r: Vec<char>)
    ensures
        r@ == strip_cr(l@),
{
    if l.len() > 0 && l[l.len() - 1] == '\r' {
        sub_chars(l, 0, l.len() - 1)
    } else {
        let r = sub_chars(l, 0, l.len());
        assert(l@.subrange(0, l@.len() as int) =~= l@);
        r
    }
}

/// Splits a text into lines.
pub fn text_lines(s: &Vec<char>) -> (r: Vec<Vec<char>>)
    ensures
        views(r@) == lines_of(s@),
{
    let mut parts = split_on(s, '\n');
    proof {
        lemma_pieces_nonempty(s@, '\n');
    }
    let ghost p = views(parts@);
    let n: usize = parts.len() - 1;
    let mut r: Vec<Vec<char>> = Vec::new();
    let mut i: usize = 0;
    while i < n
        invariant
            n == parts@.len() - 1,
            p == views(parts@),
            p == pieces(s@, '\n'),
            i <= n,
            r@.len() == i,
            views(r@) == p.drop_last().map_values(|l: Seq<char>| strip_cr(l)).subrange(0, i as int),
        decreases n - i,
    {
        assert(parts@[i as int]@ == p[i as int]);
        let line = strip_carriage_return(&parts[i]);
        let ghost before = r@;
        let ghost gl = line;
        r.push(line);
        assert(r@ == before.push(gl));
        assert(p.drop_last()[i as int] == p[i as int]);
        assert(views(r@) =~= p.drop_last().map_values(|l: Seq<char>| strip_cr(l)).subrange(0, i + 1));
        i = i + 1;
    }
    assert(p.drop_last().map_values(|l: Seq<char>| strip_cr(l)).subrange(0, n as int)
        =~= p.drop_last().map_values(|l: Seq<char>| strip_cr(l)));
    let last = parts.swap_remove(n);
    assert(last@ == p.last());
    if last.len() > 0 {
        let ghost before = r@;
        r.push(last);
        assert(views(r@) =~= views(before).push(p.last()));
    }
    r
}

/// Sets `key` to `text` in a table, replacing an earlier text of that key.
fn put_entry(entries: &mut Vec<(String, String)>, key: String, text: String)
    requires
        keys_unique(entries_view(old(entries)@)),
    ensures
        keys_unique(entries_view(final(entries)@)),
        forall|k: Seq<char>| #[trigger] assoc(entries_view(final(entries)@), k)
            == if k == key@ { Some(text@) } else { assoc(entries_view(old(entries)@), k) },
{
    let ghost ov = entries_view(entries@);
    let ghost kv = (key@, text@);
    let k = chars_of(key.as_str());
    let mut i: usize = 0;
    while i < entries.len()
        invariant
            i <= entries@.len(),
            entries@ == old(entries)@,
            ov == entries_view(entries@),
            k@ == key@,
            keys_unique(ov),
            kv == (key@, text@),
            forall|j: int| 0 <= j < i ==> #[trigger] ov[j].0 != key@,
        decreases entries@.len() - i,
    {
        assert(ov[i as int].0 == entries@[i as int].0@);
        if same_chars(&chars_of(entries[i].0.as_str()), &k) {
            let ghost before = entries@;
            let ghost pair = (key, text);
            entries.set(i, (key, text));
            let ghost nv = entries_view(entries@);
            assert(entries@ == before.update(i as int, pair));
            assert(nv =~= ov.update(i as int, kv));
            assert forall|a: int| 0 <= a < nv.len() implies #[trigger] nv[a].0 == ov[a].0 by {}
            assert forall|q: Seq<char>| #[trigger] assoc(nv, q)
                == if q == kv.0 { Some(kv.1) } else { assoc(ov, q) } by {
                lemma_assoc_unique(ov, q);
                lemma_assoc_unique(nv, q);
                if q != kv.0 {
                    if exists|j: int| 0 <= j < ov.len() && ov[j].0 == q {
                        let j = choose|j: int| 0 <= j < ov.len() && ov[j].0 == q;
                        assert(nv[j] == ov[j]);
                    }
                } else {
                    assert(nv[i as int].0 == q);
                }
            }
            return;
        }
        i = i + 1;
    }
    let ghost before = entries@;
    let ghost pair = (key, text);
    entries.push((key, text));
    let ghost nv = entries_view(entries@);
    assert(entries@ == before.push(pair));
    assert(nv =~= ov.push(kv));
    assert(keys_unique(nv)) by {
        assert forall|a: int, b: int| 0 <= a < b < nv.len() implies #[trigger] nv[a].0 != #[trigger] nv[b].0 by {
            if b == ov.len() {
                assert(ov[a].0 != key@);
            } else {
                assert(nv[a] == ov[a] && nv[b] == ov[b]);
            }
        }
    }
    assert forall|q: Seq<char>| #[trigger] assoc(nv, q)
        == if q == kv.0 { Some(kv.1) } else { assoc(ov, q) } by {
        lemma_assoc_unique(ov, q);
        lemma_assoc_unique(nv, q);
        if q != kv.0 {
            if exists|j: int| 0 <= j < ov.len() && ov[j].0 == q {
                let j = choose|j: int| 0 <= j < ov.len() && ov[j].0 == q;
                assert(nv[j] == ov[j]);
            } else {
                assert forall|j: int| 0 <= j < nv.len() implies #[trigger] nv[j].0 != q by {
                    if j < ov.len() {
                        assert(nv[j] == ov[j]);
                    }
                }
            }
        } else {
            assert(nv[ov.len() as int].0 == q);
        }
    }
}

/// A copy of a table.
pub fn copy_entries(e: &Vec<(String, String)>) -> (r: Vec<(String, String)>)
    ensures
        entries_view(r@) == entries_view(e@),
{
    let mut r: Vec<(String, String)> = Vec::new();
    let mut i: usize = 0;
    while i < e.len()
        invariant
            i <= e@.len(),
            r@.len() == i,
            entries_view(r@) == entries_view(e@).subrange(0, i as int),
        decreases e@.len() - i,
    {
        let k = e[i].0.clone();
        let v = e[i].1.clone();
        assert(k@ == e@[i as int].0@ && v@ == e@[i as int].1@);
        let ghost before = r@;
        r.push((k, v));
        assert(r@ == before.push((k, v)));
        assert(entries_view(r@)[i as int] == entries_view(e@)[i as int]);
        assert(entries_view(r@) =~= entries_view(e@).subrange(0, i + 1));
        i = i + 1;
    }
    assert(entries_view(e@).subrange(0, e@.len() as int) =~= entries_view(e@));
    r
}

} // verus!
