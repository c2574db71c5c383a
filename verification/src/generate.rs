//! Code generation: the configuration, and the indented text buffer that
//! the two dialects write to.

pub mod luau;
pub mod typescript;

use crate::infer::quoted;
use crate::sheet::{Sheet, SheetView};
use crate::value::{bool_text, bool_to_string, Value, Values};
use vstd::prelude::*;

verus! {

/// What a generator works from: a sheet, the column whose values name the
/// generated records, and whether the type declaration is left out.
#[derive(Debug)]
pub struct Config {
    pub sheet: Sheet,
    pub table_name: i32,
    pub no_type: bool,
}

/// The mathematical content of a [`Config`].
pub struct ConfigView {
    pub sheet: SheetView,
    pub table_name: int,
    pub no_type: bool,
}

impl View for Config {
    type V = ConfigView;

    open spec fn view(&self) -> ConfigView {
        ConfigView { sheet: self.sheet@, table_name: self.table_name as int, no_type: self.no_type }
    }
}

impl ConfigView {
    /// Whether every record can be named: there is no record, or the name
    /// column is a column of the sheet.
    pub open spec fn name_column_in_range(self) -> bool {
        self.sheet.rows() == 0 || 0 <= self.table_name < self.sheet.columns()
    }
}

/// `tabs` tab characters.
pub open spec fn indentation(tabs: nat) -> Seq<char>
    decreases tabs,
{
    if tabs == 0 {
        Seq::empty()
    } else {
        indentation((tabs - 1) as nat) + "\t"@
    }
}

/// One line of output: the indentation, the text, and a line feed.
pub open spec fn line(tabs: nat, text: Seq<char>) -> Seq<char> {
    indentation(tabs) + text + "\n"@
}

/// A value as it is written in generated code: a text between single
/// quotes, a number or a truth value as it stands, and `absent` for no
/// value.
pub open spec fn literal(v: Value, absent: Seq<char>) -> Seq<char> {
    match v {
        Value::Nil => absent,
        Value::String(s) => quoted(s),
        Value::Number(n) => n,
        Value::Boolean(b) => bool_text(b),
    }
}

/// Writes a value as it stands in generated code, with `absent` for no
/// value.
pub fn literal_of(v: &Values, absent: &str) -> (r: String)
    ensures
        r@ == literal(v@, absent@),
{
    match v {
        Values::Nil => String::from_str(absent),
        Values::String(s) => crate::infer::quote(s.as_str()),
        Values::Number(n) => n.clone(),
        Values::Boolean(b) => bool_to_string(*b),
    }
}

/// The three texts one after another.
pub fn concat3(a: &str, b: &str, c: &str) -> (r: String)
    ensures
        r@ == a@ + b@ + c@,
{
    let mut r = String::from_str(a);
    r.append(b);
    r.append(c);
    r
}

/// The four texts one after another.
pub fn concat4(a: &str, b: &str, c: &str, d: &str) -> (r: String)
    ensures
        r@ == a@ + b@ + c@ + d@,
{
    let mut r = String::from_str(a);
    r.append(b);
    r.append(c);
    r.append(d);
    r
}

/// A text buffer that keeps track of the indentation of its lines.
pub struct Emitter {
    tabs: usize,
    buf: String,
}

impl Emitter {
    /// The depth of indentation of the next line.
    pub closed spec fn tabs(&self) -> nat {
        self.tabs as nat
    }

    /// The text written so far.
    pub closed spec fn text(&self) -> Seq<char> {
        self.buf@
    }

    /// An empty buffer at depth 0.
    pub fn new() -> (r: Emitter)
        ensures
            r.tabs() == 0,
            r.text() == Seq::<char>::empty(),
    {
        Emitter { tabs: 0, buf: String::new() }
    }

    /// Appends `s` as it stands.
    pub fn push(&mut self, s: &str)
        ensures
            final(self).tabs() == old(self).tabs(),
            final(self).text() == old(self).text() + s@,
    {
        self.buf.append(s);
    }

    /// The next lines stand one level deeper.
    pub fn indent(&mut self)
        requires
            old(self).tabs() < usize::MAX,
        ensures
            final(self).tabs() == old(self).tabs() + 1,
            final(self).text() == old(self).text(),
    {
        self.tabs += 1;
    }

    /// The next lines stand one level less deep.
    pub fn dedent(&mut self)
        requires
            old(self).tabs() > 0,
        ensures
            final(self).tabs() == old(self).tabs() - 1,
            final(self).text() == old(self).text(),
    {
        self.tabs -= 1;
    }

    /// Appends the indentation of the current depth.
    pub fn push_tabs(&mut self)
        ensures
            final(self).tabs() == old(self).tabs(),
            final(self).text() == old(self).text() + indentation(old(self).tabs()),
    {
        let mut i: usize = 0;
        while i < self.tabs
            invariant
                i <= self.tabs,
                self.tabs == old(self).tabs,
                self.buf@ == old(self).buf@ + indentation(i as nat),
            decreases self.tabs - i,
        {
            let ghost before = self.buf@;
            self.push("\t");
            assert(self.buf@ =~= old(self).buf@ + indentation((i + 1) as nat));
            i += 1;
        }
    }

    /// Appends `s` as one line at the current depth.
    pub fn push_line(&mut self, s: &str)
        ensures
            final(self).tabs() == old(self).tabs(),
            final(self).text() == old(self).text() + line(old(self).tabs(), s@),
    {
        self.push_tabs();
        self.push(s);
        self.push("\n");
        assert(self.buf@ =~= old(self).buf@ + line(old(self).tabs(), s@));
    }

    /// The text written.
    pub fn finish(self) -> (r: String)
        ensures
            r@ == self.text(),
    {
        self.buf
    }
}

/// Determinism: the name and the text of a generated file depend on
/// nothing but the content of the configuration.
pub proof fn law_code_deterministic(a: Config, b: Config)
    requires
        a@ == b@,
    ensures
        luau::file_name(a@.sheet.name) == luau::file_name(b@.sheet.name),
        luau::module(a@) == luau::module(b@),
        typescript::file_name(a@.sheet.name) == typescript::file_name(b@.sheet.name),
        typescript::module(a@) == typescript::module(b@),
{
}

/// A record whose name column holds the text `s` is stored under `.s` in
/// the Luau dialect, and its constant is called `s` in the TypeScript
/// dialect.
pub proof fn law_name_of_text(config: ConfigView, r: int, s: Seq<char>)
    requires
        config.sheet.sheet[config.table_name][r] == Value::String(s),
    ensures
        luau::key(config.sheet.sheet[config.table_name][r]) == "."@ + s,
        luau::table(config, r) == line(0, config.sheet.name + ("."@ + s) + " = {"@) + luau::fields(
            config.sheet,
            r,
            config.sheet.columns(),
        ) + line(0, "};"@) + "\n"@,
        typescript::object(config, r) == line(0, "export const "@ + s + " = {"@)
            + typescript::fields(config, r, config.sheet.columns()) + line(0, "};"@) + "\n"@,
{
}

} // verus!
