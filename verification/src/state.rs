//! What is remembered between runs: how it is read and the text that it is kept
//! as.
use vstd::prelude::*;
use crate::text::same;

verus! {

/// What is remembered between runs.
#[derive(Clone, Copy, Debug, PartialEq, Eq)]
pub struct State {
    /// The last window size in pixels.
    pub window_width: Option<i32>,
    pub window_height: Option<i32>,
}

// ---- the state in a table ----

/// A TOML table: of each key its integer, or `None` for a value of another
/// kind.
pub type Entries = Map<Seq<char>, Option<i64>>;

/// The table that a list of entries makes; of equal keys the last counts.
pub open spec fn table(v: Seq<(String, Option<i64>)>) -> Entries
    decreases v.len(),
{
    if v.len() == 0 {
        Map::empty()
    } else {
        table(v.drop_last()).insert(v.last().0@, v.last().1)
    }
}

/// Whether a table's value of a key can be a size: an integer of 32 bits, or
/// none at all.
pub open spec fn is_size(t: Entries, k: Seq<char>) -> bool {
    t.contains_key(k) ==> t[k] is Some && i32::MIN <= t[k]->Some_0 <= i32::MAX
}

/// The size that a table holds under a key.
pub open spec fn size_in(t: Entries, k: Seq<char>) -> Option<i32> {
    if t.contains_key(k) {
        Some(t[k]->Some_0 as i32)
    } else {
        None
    }
}

/// Nothing remembered.
pub open spec fn nothing() -> State {
    State { window_width: None, window_height: None }
}

/// The state that a table holds: nothing where a size is no integer of 32 bits.
/// Other keys do not matter.
pub open spec fn state_in(t: Entries) -> State {
    if is_size(t, "window_width"@) && is_size(t, "window_height"@) {
        State {
            window_width: size_in(t, "window_width"@),
            window_height: size_in(t, "window_height"@),
        }
    } else {
        nothing()
    }
}

/// The state that is read: that of the file's table, nothing where there is no
/// file or it is no TOML.
pub open spec fn state_read(t: Option<Entries>) -> State {
    match t {
        Some(m) => state_in(m),
        None => nothing(),
    }
}

/// The value of a key in a list of entries, if it has one.
fn value_of(v: &Vec<(String, Option<i64>)>, k: &str) -> (r: Option<Option<i64>>)
    ensures
        r is Some == table(v@).contains_key(k@),
        r is Some ==> r->Some_0 == table(v@)[k@],
{
    let mut r: Option<Option<i64>> = None;
    for i in 0..v.len()
        invariant
            r is Some == table(v@.take(i as int)).contains_key(k@),
            r is Some ==> r->Some_0 == table(v@.take(i as int))[k@],
    {
        assert(v@.take(i as int + 1).drop_last() =~= v@.take(i as int));
        if same(v[i].0.as_str(), k) {
            r = Some(v[i].1);
        }
    }
    assert(v@.take(v@.len() as int) =~= v@);
    r
}

/// The size under a key; `None` where the value can be none.
fn size_of(v: &Vec<(String, Option<i64>)>, k: &str) -> (r: Option<Option<i32>>)
    ensures
        r is Some == is_size(table(v@), k@),
        r is Some ==> r->Some_0 == size_in(table(v@), k@),
{
    match value_of(v, k) {
        None => Some(None),
        Some(Some(n)) => if i32::MIN as i64 <= n && n <= i32::MAX as i64 {
            Some(Some(n as i32))
        } else {
            None
        },
        Some(None) => None,
    }
}

impl Default for State {
    fn default() -> (s: State)
        ensures
            s == nothing(),
    {
        State { window_width: None, window_height: None }
    }
}

impl State {
    /// The state that a TOML table's entries hold.
    pub fn from_entries(v: &Vec<(String, Option<i64>)>) -> (s: State)
        ensures
            s == state_in(table(v@)),
    {
        match (size_of(v, "window_width"), size_of(v, "window_height")) {
            (Some(w), Some(h)) => State { window_width: w, window_height: h },
            _ => State::default(),
        }
    }

    /// The remembered state, from the entries of the file's table if there is a
    /// file and it is TOML: nothing where there is none or it is not valid.
    pub fn load(file: Option<Vec<(String, Option<i64>)>>) -> (s: State)
        ensures
            s == state_read(
                match file {
                    Some(v) => Some(table(v@)),
                    None => None,
                },
            ),
    {
        match file {
            Some(v) => State::from_entries(&v),
            None => State::default(),
        }
    }
}

// ---- the state as text ----

/// The entries that a state is kept as, the width first: a size that is not
/// known has none.
pub open spec fn entries_of(s: State) -> Seq<(Seq<char>, i64)> {
    entry_of("window_width"@, s.window_width) + entry_of("window_height"@, s.window_height)
}

/// The entry of a size, if it is known.
pub open spec fn entry_of(k: Seq<char>, size: Option<i32>) -> Seq<(Seq<char>, i64)> {
    match size {
        Some(n) => seq![(k, n as i64)],
        None => seq![],
    }
}

/// A key that TOML takes without quotes: small letters and underscores.
pub open spec fn is_bare_key(k: Seq<char>) -> bool {
    k.len() > 0 && forall|i: int|
        0 <= i < k.len() ==> 'a' <= #[trigger] k[i] <= 'z' || k[i] == '_'
}

/// The line of an entry.
pub open spec fn line(k: Seq<char>, n: i64) -> Seq<char> {
    k + " = "@ + crate::text::signed_decimal(n as int) + seq!['\n']
}

/// The lines of some entries.
pub open spec fn lines(entries: Seq<(Seq<char>, i64)>) -> Seq<char>
    decreases entries.len(),
{
    if entries.len() == 0 {
        seq![]
    } else {
        lines(entries.drop_last()) + line(entries.last().0, entries.last().1)
    }
}

/// `toml::to_string` on a table of one integer: the key, an equals sign between
/// blanks, the number in decimal and the end of the line.
#[verifier::external_body]
fn toml_line(key: &str, n: i64) -> (text: String)
    requires
        is_bare_key(key@),
    ensures
        text@ == line(key@, n),
{
    let mut t = toml::Table::new();
    t.insert(key.to_string(), toml::Value::Integer(n));
    toml::to_string(&t).expect("a table of integers has a text")
}

/// Append the line of a size, if it is known.
fn push_size(text: &mut String, k: &str, size: Option<i32>)
    requires
        is_bare_key(k@),
    ensures
        final(text)@ == old(text)@ + lines(entry_of(k@, size)),
{
    let ghost before = text@;
    proof {
        lemma_one_line(k@, size);
    }
    if let Some(n) = size {
        let l: String = toml_line(k, n as i64);
        text.append(l.as_str());
    }
    assert(text@ =~= before + lines(entry_of(k@, size)));
}

impl State {
    /// The text to remember the state by.
    pub fn save(&self) -> (text: String)
        ensures
            text@ == lines(entries_of(*self)),
    {
        proof {
            reveal_strlit("window_width");
            reveal_strlit("window_height");
            lemma_two_parts(*self);
        }
        let mut text: String = String::new();
        push_size(&mut text, "window_width", self.window_width);
        push_size(&mut text, "window_height", self.window_height);
        assert(text@ =~= lines(entries_of(*self)));
        text
    }
}

// ---- laws ----

/// The table that a list of entries makes.
pub open spec fn table_from(entries: Seq<(Seq<char>, i64)>) -> Entries
    decreases entries.len(),
{
    if entries.len() == 0 {
        Map::empty()
    } else {
        table_from(entries.drop_last()).insert(entries.last().0, Some(entries.last().1))
    }
}

/// What was saved is what is read: the entries that a state is kept as are read
/// as that state, sizes that are not known included.
pub proof fn law_saved_is_read(s: State)
    ensures
        state_read(Some(table_from(entries_of(s)))) == s,
{
    reveal_strlit("window_width");
    reveal_strlit("window_height");
    assert("window_width"@.len() != "window_height"@.len());
    let (w, h) = (
        entry_of("window_width"@, s.window_width),
        entry_of("window_height"@, s.window_height),
    );
    reveal_with_fuel(table_from, 3);
    if s.window_height is Some {
        assert(entries_of(s).drop_last() =~= w);
    } else {
        assert(entries_of(s) =~= w);
    }
    if s.window_width is Some {
        assert(w.drop_last() =~= seq![]);
    }
}

/// The text loses nothing: different states have different texts.
pub proof fn law_texts_tell_states_apart(a: State, b: State)
    requires
        lines(entries_of(a)) == lines(entries_of(b)),
    ensures
        a == b,
{
    reveal_strlit("window_width");
    reveal_strlit("window_height");
    reveal_strlit(" = ");
    lemma_two_parts(a);
    lemma_two_parts(b);
    let (kw, kh) = ("window_width"@, "window_height"@);
    let (aw, ah) = (lines(entry_of(kw, a.window_width)), lines(entry_of(kh, a.window_height)));
    let (bw, bh) = (lines(entry_of(kw, b.window_width)), lines(entry_of(kh, b.window_height)));
    lemma_one_line(kw, a.window_width);
    lemma_one_line(kw, b.window_width);
    lemma_one_line(kh, a.window_height);
    lemma_one_line(kh, b.window_height);
    // The eighth character of a line is that of its key.
    assert(a.window_width is Some ==> (aw + ah)[7] == 'w');
    assert(b.window_width is Some ==> (bw + bh)[7] == 'w');
    assert(a.window_width is None && a.window_height is Some ==> (aw + ah)[7] == 'h');
    assert(b.window_width is None && b.window_height is Some ==> (bw + bh)[7] == 'h');
    if a.window_width is Some {
        lemma_first_line(kw, a.window_width->Some_0 as i64, b.window_width->Some_0 as i64, ah, bh);
    } else {
        assert(aw + ah =~= ah);
        assert(bw + bh =~= bh);
    }
    if a.window_height is Some {
        assert(ah =~= ah + seq![]);
        assert(bh =~= bh + seq![]);
        lemma_first_line(
            kh,
            a.window_height->Some_0 as i64,
            b.window_height->Some_0 as i64,
            seq![],
            seq![],
        );
    }
}

/// Keys that the state does not know do not matter.
pub proof fn law_other_keys_ignored(t: Entries, k: Seq<char>, v: Option<i64>)
    requires
        k != "window_width"@,
        k != "window_height"@,
    ensures
        state_in(t.insert(k, v)) == state_in(t),
{
}

// ---- proofs ----

proof fn lemma_one_line(k: Seq<char>, size: Option<i32>)
    ensures
        lines(entry_of(k, size)) == match size {
            Some(n) => line(k, n as i64),
            None => seq![],
        },
{
    reveal_with_fuel(lines, 2);
    if let Some(n) = size {
        assert(entry_of(k, size).drop_last() =~= seq![]);
        assert(lines(entry_of(k, size)) =~= line(k, n as i64));
    }
}

proof fn lemma_two_parts(s: State)
    ensures
        lines(entries_of(s)) == lines(entry_of("window_width"@, s.window_width)) + lines(
            entry_of("window_height"@, s.window_height),
        ),
{
    let (w, h) = (
        entry_of("window_width"@, s.window_width),
        entry_of("window_height"@, s.window_height),
    );
    lemma_one_line("window_height"@, s.window_height);
    if s.window_height is Some {
        assert(entries_of(s).drop_last() =~= w);
    } else {
        assert(entries_of(s) =~= w);
        assert(lines(w) + lines(h) =~= lines(w));
    }
}

/// Texts that begin with lines of one key agree on the number and on the rest.
proof fn lemma_first_line(k: Seq<char>, m: i64, n: i64, r: Seq<char>, q: Seq<char>)
    requires
        line(k, m) + r == line(k, n) + q,
    ensures
        m == n,
        r == q,
{
    let head = k + " = "@;
    let (a, b) = (
        crate::text::signed_decimal(m as int),
        crate::text::signed_decimal(n as int),
    );
    let (s, t) = (line(k, m) + r, line(k, n) + q);
    let h = head.len() as int;
    lemma_no_line_end(m as int);
    lemma_no_line_end(n as int);
    assert(s[h + a.len()] == '\n');
    assert(t[h + b.len()] == '\n');
    if a.len() < b.len() {
        assert(t[h + a.len()] == b[a.len() as int]);
    }
    if b.len() < a.len() {
        assert(s[h + b.len()] == a[b.len() as int]);
    }
    assert forall|i: int| 0 <= i < a.len() implies a[i] == b[i] by {
        assert(s[h + i] == a[i]);
        assert(t[h + i] == b[i]);
    }
    assert(a =~= b);
    crate::text::lemma_signed_decimal_distinct(m as int, n as int);
    assert(s.skip(line(k, m).len() as int) =~= r);
    assert(t.skip(line(k, n).len() as int) =~= q);
}

proof fn lemma_no_line_end(n: int)
    ensures
        forall|i: int|
            0 <= i < crate::text::signed_decimal(n).len() ==> #[trigger] crate::text::signed_decimal(
                n,
            )[i] != '\n',
{
    crate::text::lemma_digits(
        (if n < 0 {
            -n
        } else {
            n
        }) as nat,
    );
}

} // verus!
