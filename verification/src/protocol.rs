use vstd::prelude::*;

use crate::text::{has_prefix, starts_with, string_of_range, to_chars};
use crate::vars::UpsVars;

verus! {

/// The line that opens the answer to a `LIST VAR` query.
pub open spec fn begin_marker() -> Seq<char> {
    "BEGIN LIST VAR"@
}

/// The line that closes the answer to a `LIST VAR` query.
pub open spec fn end_marker() -> Seq<char> {
    "END LIST VAR"@
}

/// The start of a line that reports one variable.
pub open spec fn var_marker() -> Seq<char> {
    "VAR "@
}

/// The query text that asks upsd for all variables of `ups_name`.
pub open spec fn list_var_command_spec(ups_name: Seq<char>) -> Seq<char> {
    "LIST VAR "@ + ups_name + "\n"@
}

/// Builds the query that asks upsd for all variables of `ups_name`.
pub fn list_var_command(ups_name: &str) -> (res: String)
    ensures
        res@ == list_var_command_spec(ups_name@),
{
    let mut res = String::new();
    res.append("LIST VAR ");
    res.append(ups_name);
    res.append("\n");
    res
}

/// Splits `s` at its first space: the text before it and the text after it.
/// `None` when `s` holds no space.
pub open spec fn split_word(s: Seq<char>) -> Option<(Seq<char>, Seq<char>)>
    decreases s.len(),
{
    if s.len() == 0 {
        None
    } else if s[0] == ' ' {
        Some((Seq::empty(), s.drop_first()))
    } else {
        match split_word(s.drop_first()) {
            Some((w, rest)) => Some((seq![s[0]] + w, rest)),
            None => None,
        }
    }
}

/// The name and the raw value of a `VAR <ups> <name> <value>` line: the
/// line cut at its first three spaces, the value being all that follows
/// the third. `None` when the line holds fewer than three spaces.
pub open spec fn var_fields(line: Seq<char>) -> Option<(Seq<char>, Seq<char>)> {
    match split_word(line.skip(var_marker().len() as int)) {
        Some((_ups, rest)) => split_word(rest),
        None => None,
    }
}

/// A value written between double quotes loses them.
pub open spec fn unquote(v: Seq<char>) -> Seq<char> {
    if v.len() >= 2 && v[0] == '"' && v[v.len() - 1] == '"' {
        v.subrange(1, v.len() - 1)
    } else {
        v
    }
}

/// A value that is a lone double quote: it opens and closes with a quote,
/// and removing both is impossible.
pub open spec fn lone_quote(v: Seq<char>) -> bool {
    v.len() == 1 && v[0] == '"'
}

proof fn lemma_split_word_at(t: Seq<char>, k: int)
    requires
        0 <= k < t.len(),
        t[k] == ' ',
        forall|j: int| 0 <= j < k ==> t[j] != ' ',
    ensures
        split_word(t) == Some((t.take(k), t.skip(k + 1))),
    decreases t.len(),
{
    if k > 0 {
        let u = t.drop_first();
        assert forall|j: int| 0 <= j < k - 1 implies u[j] != ' ' by {
            assert(u[j] == t[j + 1]);
        }
        lemma_split_word_at(u, k - 1);
        assert(seq![t[0]] + u.take(k - 1) =~= t.take(k));
        assert(u.skip(k) =~= t.skip(k + 1));
    } else {
        assert(t.take(0) =~= Seq::<char>::empty());
        assert(t.drop_first() =~= t.skip(1));
    }
}

proof fn lemma_split_word_none(t: Seq<char>)
    requires
        forall|j: int| 0 <= j < t.len() ==> t[j] != ' ',
    ensures
        split_word(t) is None,
    decreases t.len(),
{
    if t.len() > 0 {
        let u = t.drop_first();
        assert forall|j: int| 0 <= j < u.len() implies u[j] != ' ' by {
            assert(u[j] == t[j + 1]);
        }
        lemma_split_word_none(u);
    }
}

/// The position of the first space in `cs` at or after `from`.
fn find_space(cs: &Vec<char>, from: usize) -> (res: Option<usize>)
    requires
        from <= cs.len(),
    ensures
        res matches Some(k) ==> from <= k < cs.len() && cs@[k as int] == ' ' && forall|j: int|
            from <= j < k ==> cs@[j] != ' ',
        res is None ==> forall|j: int| from <= j < cs.len() ==> cs@[j] != ' ',
{
    let mut i = from;
    while i < cs.len()
        invariant
            from <= i <= cs.len(),
            forall|j: int| from <= j < i ==> cs@[j] != ' ',
        decreases cs.len() - i,
    {
        if cs[i] == ' ' {
            return Some(i);
        }
        i = i + 1;
    }
    None
}

/// Splits `cs.skip(from)` at its first space, as positions in `cs`.
fn split_word_from(cs: &Vec<char>, from: usize) -> (res: Option<usize>)
    requires
        from <= cs.len(),
    ensures
        res matches Some(k) ==> from <= k < cs.len() && split_word(cs@.skip(from as int)) == Some(
            (cs@.subrange(from as int, k as int), cs@.skip(k + 1)),
        ),
        res is None ==> split_word(cs@.skip(from as int)) is None,
{
    let r = find_space(cs, from);
    let ghost t = cs@.skip(from as int);
    match r {
        Some(k) => {
            proof {
                assert forall|j: int| 0 <= j < k - from implies t[j] != ' ' by {
                    assert(t[j] == cs@[j + from]);
                }
                lemma_split_word_at(t, k - from);
                assert(t.take(k - from) =~= cs@.subrange(from as int, k as int));
                assert(t.skip(k - from + 1) =~= cs@.skip(k + 1));
            }
            Some(k)
        },
        None => {
            proof {
                assert forall|j: int| 0 <= j < t.len() implies t[j] != ' ' by {
                    assert(t[j] == cs@[j + from]);
                }
                lemma_split_word_none(t);
            }
            None
        },
    }
}

/// Reads a `VAR <ups> <name> <value>` line: the variable's name and its
/// value with surrounding double quotes removed. `None` when the line does
/// not start with `VAR ` or holds fewer than three spaces.
pub fn parse_var_line(line: &str) -> (res: Option<(String, String)>)
    requires
        has_prefix(line@, var_marker()) ==> !(var_fields(line@) matches Some((_n, v)) && lone_quote(v)),
    ensures
        !has_prefix(line@, var_marker()) ==> res is None,
        has_prefix(line@, var_marker()) ==> match var_fields(line@) {
            Some((n, v)) => res matches Some((rn, rv)) && rn@ == n && rv@ == unquote(v),
            None => res is None,
        },
{
    let cs = to_chars(line);
    let marker = to_chars("VAR ");
    if !starts_with(&cs, &marker) {
        return None;
    }
    let start = marker.len();
    let k1 = match split_word_from(&cs, start) {
        Some(k) => k,
        None => {
            return None;
        },
    };
    let k2 = match split_word_from(&cs, k1 + 1) {
        Some(k) => k,
        None => {
            return None;
        },
    };
    let ghost v = cs@.skip(k2 + 1);
    let name = string_of_range(&cs, k1 + 1, k2);
    let n = cs.len();
    let value = if n - (k2 + 1) >= 2 && cs[k2 + 1] == '"' && cs[n - 1] == '"' {
        let r = string_of_range(&cs, k2 + 2, n - 1);
        assert(r@ =~= v.subrange(1, v.len() - 1));
        r
    } else {
        let r = string_of_range(&cs, k2 + 1, n);
        assert(r@ =~= v);
        r
    };
    Some((name, value))
}

/// Where reading the answer to a `LIST VAR` query stands: whether the
/// opening line was seen, whether the closing line was seen, and the
/// variables read so far.
pub ghost struct ScanState {
    pub in_list: bool,
    pub stopped: bool,
    pub vars: Map<Seq<char>, Seq<char>>,
}

/// Nothing read yet.
pub open spec fn scan_start() -> ScanState {
    ScanState { in_list: false, stopped: false, vars: Map::empty() }
}

/// What one more line does. Once the closing line was seen nothing changes.
/// Lines are tested in this order: the opening line, the closing line, then
/// (inside the list only) a variable line, which sets the variable.
pub open spec fn scan_step(st: ScanState, line: Seq<char>) -> ScanState {
    if st.stopped {
        st
    } else if has_prefix(line, begin_marker()) {
        ScanState { in_list: true, stopped: st.stopped, vars: st.vars }
    } else if has_prefix(line, end_marker()) {
        ScanState { in_list: st.in_list, stopped: true, vars: st.vars }
    } else if st.in_list && has_prefix(line, var_marker()) {
        match var_fields(line) {
            Some((n, v)) => ScanState {
                in_list: st.in_list,
                stopped: st.stopped,
                vars: st.vars.insert(n, unquote(v)),
            },
            None => st,
        }
    } else {
        st
    }
}

/// The state after reading all of `lines`, in order.
pub open spec fn scan(lines: Seq<Seq<char>>) -> ScanState
    decreases lines.len(),
{
    if lines.len() == 0 {
        scan_start()
    } else {
        scan_step(scan(lines.drop_last()), lines.last())
    }
}

/// Reading `line` in state `st` would have to strip the quotes from a value
/// that is a lone double quote.
pub open spec fn step_fails(st: ScanState, line: Seq<char>) -> bool {
    &&& !st.stopped
    &&& !has_prefix(line, begin_marker())
    &&& !has_prefix(line, end_marker())
    &&& st.in_list
    &&& has_prefix(line, var_marker())
    &&& var_fields(line) matches Some((_n, v)) && lone_quote(v)
}

/// Some line of `lines`, read in turn, would fail.
pub open spec fn scan_fails(lines: Seq<Seq<char>>) -> bool {
    exists|i: int| 0 <= i < lines.len() && #[trigger] step_fails(scan(lines.take(i)), lines[i])
}

/// Why a query for the UPS variables produced none.
#[derive(Debug, Clone, Copy, PartialEq, Eq, Structural)]
pub enum QueryError {
    /// The answer held no variable.
    NoMetrics,
}

impl QueryError {
    /// The message shown for this error.
    pub fn message(&self) -> (res: String)
        ensures
            res@ == "No metrics received from upsd"@,
    {
        String::from_str("No metrics received from upsd")
    }
}

/// Reads the answer to a `LIST VAR` query one line at a time.
pub struct VarListReader {
    in_list: bool,
    stopped: bool,
    vars: UpsVars,
}

impl VarListReader {
    /// A reader that has seen no line.
    pub fn new() -> (res: VarListReader)
        ensures
            res@ == scan_start(),
    {
        VarListReader { in_list: false, stopped: false, vars: UpsVars::new() }
    }

    /// Whether reading `line` now would have to strip the quotes from a
    /// value that is a lone double quote.
    pub fn line_fails(&self, line: &str) -> (res: bool)
        ensures
            res == step_fails(self@, line@),
    {
        if self.stopped || !self.in_list {
            return false;
        }
        let cs = to_chars(line);
        if starts_with(&cs, &to_chars("BEGIN LIST VAR")) || starts_with(&cs, &to_chars("END LIST VAR"))
            || !starts_with(&cs, &to_chars("VAR ")) {
            return false;
        }
        let start: usize = 4;
        assert(var_marker().len() == start) by {
            reveal_strlit("VAR ");
        }
        let k1 = match split_word_from(&cs, start) {
            Some(k) => k,
            None => {
                return false;
            },
        };
        match split_word_from(&cs, k1 + 1) {
            Some(k2) => {
                let ghost v = cs@.skip(k2 + 1);
                assert(v.len() == cs.len() - (k2 + 1));
                let r = cs.len() - k2 == 2 && cs[k2 + 1] == '"';
                assert(r ==> v[0] == cs@[k2 + 1]);
                r
            },
            None => false,
        }
    }

    /// Reads one more line. Returns whether more lines are wanted: false once
    /// the closing line was seen.
    pub fn feed_line(&mut self, line: &str) -> (more: bool)
        requires
            !step_fails(old(self)@, line@),
        ensures
            final(self)@ == scan_step(old(self)@, line@),
            more == !final(self)@.stopped,
    {
        if self.stopped {
            return false;
        }
        let cs = to_chars(line);
        if starts_with(&cs, &to_chars("BEGIN LIST VAR")) {
            self.in_list = true;
            return true;
        }
        if starts_with(&cs, &to_chars("END LIST VAR")) {
            self.stopped = true;
            return false;
        }
        if self.in_list {
            match parse_var_line(line) {
                Some((name, value)) => {
                    self.vars.insert(name, value);
                },
                None => {},
            }
        }
        true
    }

    /// The variables read, or `NoMetrics` when there are none.
    pub fn finish(self) -> (res: Result<UpsVars, QueryError>)
        ensures
            self@.vars.dom() =~= Set::<Seq<char>>::empty() ==> res == Err::<UpsVars, QueryError>(QueryError::NoMetrics),
            !(self@.vars.dom() =~= Set::<Seq<char>>::empty()) ==> (res matches Ok(v) && v@ == self@.vars),
    {
        if self.vars.is_empty() {
            Err(QueryError::NoMetrics)
        } else {
            Ok(self.vars)
        }
    }
}

impl View for VarListReader {
    type V = ScanState;

    closed spec fn view(&self) -> ScanState {
        ScanState { in_list: self.in_list, stopped: self.stopped, vars: self.vars@ }
    }
}

/// Reads a whole answer to a `LIST VAR` query, stopping at its closing line
/// or at the end of `lines`: the variables listed between the opening and
/// the closing line, or `NoMetrics` when there are none.
pub fn parse_list_var_response(lines: &Vec<String>) -> (res: Result<UpsVars, QueryError>)
    requires
        !scan_fails(lines@.map_values(|l: String| l@)),
    ensures
        ({
            let st = scan(lines@.map_values(|l: String| l@));
            &&& st.vars.dom() =~= Set::<Seq<char>>::empty() ==> res == Err::<UpsVars, QueryError>(QueryError::NoMetrics)
            &&& !(st.vars.dom() =~= Set::<Seq<char>>::empty()) ==> (res matches Ok(v) && v@ == st.vars)
        }),
{
    let ghost ls = lines@.map_values(|l: String| l@);
    let mut reader = VarListReader::new();
    let mut i: usize = 0;
    assert(ls.take(0) =~= Seq::<Seq<char>>::empty());
    while i < lines.len()
        invariant
            ls == lines@.map_values(|l: String| l@),
            !scan_fails(ls),
            i <= lines.len(),
            reader@ == scan(ls.take(i as int)),
        decreases lines.len() - i,
    {
        assert(ls[i as int] == lines[i as int]@);
        assert(!step_fails(scan(ls.take(i as int)), ls[i as int]));
        let _more = reader.feed_line(lines[i].as_str());
        assert(ls.take(i + 1).drop_last() =~= ls.take(i as int));
        i = i + 1;
    }
    assert(ls.take(lines.len() as int) =~= ls);
    reader.finish()
}

/// `s` holds no space.
pub open spec fn space_free(s: Seq<char>) -> bool {
    forall|i: int| 0 <= i < s.len() ==> s[i] != ' '
}

/// Once the closing line was read, no later line changes anything: what
/// follows `END LIST VAR` is ignored.
pub proof fn law_nothing_after_end(ls: Seq<Seq<char>>, rest: Seq<Seq<char>>)
    requires
        scan(ls).stopped,
    ensures
        scan(ls + rest) == scan(ls),
    decreases rest.len(),
{
    if rest.len() == 0 {
        assert(ls + rest =~= ls);
    } else {
        law_nothing_after_end(ls, rest.drop_last());
        assert((ls + rest).drop_last() =~= ls + rest.drop_last());
    }
}

/// Without the opening line no variable is read: lines before
/// `BEGIN LIST VAR` are ignored.
pub proof fn law_nothing_before_begin(ls: Seq<Seq<char>>)
    requires
        forall|i: int| 0 <= i < ls.len() ==> !has_prefix(#[trigger] ls[i], begin_marker()),
    ensures
        !scan(ls).in_list,
        scan(ls).vars =~= Map::<Seq<char>, Seq<char>>::empty(),
    decreases ls.len(),
{
    if ls.len() > 0 {
        let t = ls.drop_last();
        assert forall|i: int| 0 <= i < t.len() implies !has_prefix(#[trigger] t[i], begin_marker()) by {
            assert(t[i] == ls[i]);
        }
        law_nothing_before_begin(t);
        assert(!has_prefix(ls[ls.len() - 1], begin_marker()));
    }
}

/// Inside the list, a line `VAR <ups> <name> <value>` sets `<name>` to
/// `<value>` (quotes removed), keeping every other variable, whatever spaces
/// the value holds.
pub proof fn law_var_line_sets(st: ScanState, ups: Seq<char>, name: Seq<char>, value: Seq<char>)
    requires
        st.in_list,
        !st.stopped,
        space_free(ups),
        space_free(name),
        !has_prefix(var_marker() + ups + " "@ + name + " "@ + value, begin_marker()),
        !has_prefix(var_marker() + ups + " "@ + name + " "@ + value, end_marker()),
    ensures
        var_fields(var_marker() + ups + " "@ + name + " "@ + value) == Some((name, value)),
        scan_step(st, var_marker() + ups + " "@ + name + " "@ + value).vars == st.vars.insert(
            name,
            unquote(value),
        ),
{
    reveal_strlit(" ");
    let line = var_marker() + ups + " "@ + name + " "@ + value;
    let t = line.skip(var_marker().len() as int);
    assert(t =~= ups + " "@ + name + " "@ + value);
    let k = ups.len() as int;
    assert forall|j: int| 0 <= j < k implies t[j] != ' ' by {
        assert(t[j] == ups[j]);
    }
    lemma_split_word_at(t, k);
    let r = t.skip(k + 1);
    assert(r =~= name + " "@ + value);
    assert(t.take(k) =~= ups);
    let m = name.len() as int;
    assert forall|j: int| 0 <= j < m implies r[j] != ' ' by {
        assert(r[j] == name[j]);
    }
    lemma_split_word_at(r, m);
    assert(r.take(m) =~= name);
    assert(r.skip(m + 1) =~= value);
    assert(line.take(var_marker().len() as int) =~= var_marker());
}

/// A value written between double quotes reads as the text between them.
pub proof fn law_quotes_removed(v: Seq<char>)
    ensures
        unquote(seq!['"'] + v + seq!['"']) == v,
{
    assert((seq!['"'] + v + seq!['"']).subrange(1, v.len() + 1 as int) =~= v);
}

/// A value that does not begin and end with a double quote reads unchanged.
pub proof fn law_bare_value_kept(v: Seq<char>)
    requires
        !(v.len() >= 2 && v[0] == '"' && v[v.len() - 1] == '"'),
    ensures
        unquote(v) == v,
{
}

/// Reading a line fails only on a `VAR` line whose value is a lone double
/// quote.
pub proof fn law_only_lone_quote_fails(st: ScanState, line: Seq<char>)
    ensures
        step_fails(st, line) ==> (var_fields(line) matches Some((_n, v)) && v == seq!['"']),
{
    if step_fails(st, line) {
        if let Some((_n, v)) = var_fields(line) {
            assert(v =~= seq!['"']);
        }
    }
}

/// Inside the list, a `VAR` line whose value is written between double
/// quotes never fails, and sets the variable to the text between them.
pub proof fn law_quoted_value_read(st: ScanState, ups: Seq<char>, name: Seq<char>, w: Seq<char>)
    requires
        st.in_list,
        !st.stopped,
        space_free(ups),
        space_free(name),
        !has_prefix("VAR "@ + ups + " "@ + name + " "@ + (seq!['"'] + w + seq!['"']), "BEGIN LIST VAR"@),
        !has_prefix("VAR "@ + ups + " "@ + name + " "@ + (seq!['"'] + w + seq!['"']), "END LIST VAR"@),
    ensures
        !step_fails(st, "VAR "@ + ups + " "@ + name + " "@ + (seq!['"'] + w + seq!['"'])),
        scan_step(st, "VAR "@ + ups + " "@ + name + " "@ + (seq!['"'] + w + seq!['"'])).vars == st.vars.insert(
            name,
            w,
        ),
{
    let v = seq!['"'] + w + seq!['"'];
    law_var_line_sets(st, ups, name, v);
    law_quotes_removed(w);
    assert(v.len() >= 2);
}

} // verus!
