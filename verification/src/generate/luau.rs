//! The Luau dialect: a type declaration and one table for each record.

use crate::error::SheetError;
use crate::generate::{concat3, concat4, line, literal, literal_of, Config, ConfigView, Emitter};
use crate::sheet::{Sheet, SheetView};
use crate::value::{bool_text, bool_to_string, Value, Values};
use vstd::prelude::*;

verus! {

/// One field of the type declaration: `name: type;`.
pub open spec fn type_field(column: (Seq<char>, Seq<char>)) -> Seq<char> {
    column.0 + ": "@ + column.1 + ";"@
}

/// The fields of the type declaration, one line for each column.
pub open spec fn type_fields(types: Seq<(Seq<char>, Seq<char>)>) -> Seq<char>
    decreases types.len(),
{
    if types.len() == 0 {
        Seq::empty()
    } else {
        type_fields(types.drop_last()) + line(1, type_field(types.last()))
    }
}

/// The type declaration of a sheet.
pub open spec fn type_block(sheet: SheetView) -> Seq<char> {
    line(0, "export type "@ + sheet.name + " = {"@) + type_fields(sheet.types) + line(0, "};"@)
}

/// The key under which a record is stored: a text as a field of the table,
/// a number or a truth value as an index, no value as the index `nil`.
pub open spec fn key(v: Value) -> Seq<char> {
    match v {
        Value::String(s) => "."@ + s,
        Value::Number(n) => "["@ + n + "]"@,
        Value::Boolean(b) => "["@ + bool_text(b) + "]"@,
        Value::Nil => "[nil]"@,
    }
}

/// The field of record `r` for column `c`: `name = value;`.
pub open spec fn field(sheet: SheetView, c: int, r: int) -> Seq<char> {
    sheet.types[c].0 + " = "@ + literal(sheet.sheet[c][r], "nil"@) + ";"@
}

/// The fields of record `r` for the first `upto` columns, one line each.
pub open spec fn fields(sheet: SheetView, r: int, upto: nat) -> Seq<char>
    decreases upto,
{
    if upto == 0 {
        Seq::empty()
    } else {
        fields(sheet, r, (upto - 1) as nat) + line(1, field(sheet, upto - 1, r))
    }
}

/// The table of record `r`, stored under the value of the name column, and
/// an empty line behind it.
pub open spec fn table(config: ConfigView, r: int) -> Seq<char> {
    line(0, config.sheet.name + key(config.sheet.sheet[config.table_name][r]) + " = {"@) + fields(
        config.sheet,
        r,
        config.sheet.columns(),
    ) + line(0, "};"@) + "\n"@
}

/// The tables of the first `upto` records.
pub open spec fn tables(config: ConfigView, upto: nat) -> Seq<char>
    decreases upto,
{
    if upto == 0 {
        Seq::empty()
    } else {
        tables(config, (upto - 1) as nat) + table(config, upto - 1)
    }
}

/// The table that holds all records: its declaration, one table for each
/// record, and the statement that returns it.
pub open spec fn table_section(config: ConfigView) -> Seq<char> {
    line(0, "local "@ + config.sheet.name + " = {}"@) + "\n"@ + tables(config, config.sheet.rows())
        + line(0, "return "@ + config.sheet.name + ";"@)
}

/// The text of the generated module.
pub open spec fn module(config: ConfigView) -> Seq<char> {
    if config.no_type {
        table_section(config)
    } else {
        type_block(config.sheet) + "\n"@ + table_section(config)
    }
}

/// The name of the generated file.
pub open spec fn file_name(name: Seq<char>) -> Seq<char> {
    name + ".luau"@
}

/// Writes the key under which a record is stored.
pub fn key_of(v: &Values) -> (r: String)
    ensures
        r@ == key(v@),
{
    match v {
        Values::String(s) => {
            let mut r = String::from_str(".");
            r.append(s.as_str());
            r
        },
        Values::Number(n) => concat3("[", n.as_str(), "]"),
        Values::Boolean(b) => concat3("[", bool_to_string(*b).as_str(), "]"),
        Values::Nil => String::from_str("[nil]"),
    }
}

/// The generator of the Luau dialect.
pub struct Generator {
    config: Config,
    out: Emitter,
}

impl Generator {
    #[verifier::type_invariant]
    spec fn fresh(self) -> bool {
        self.out.tabs() == 0 && self.out.text() == Seq::<char>::empty()
    }

    /// The configuration that the generator works from.
    pub closed spec fn config(&self) -> ConfigView {
        self.config@
    }

    /// A generator for `config` that has written nothing yet.
    pub fn new(config: Config) -> (g: Generator)
        ensures
            g.config() == config@,
    {
        Generator { config, out: Emitter::new() }
    }

    fn push_type(sheet: &Sheet, out: &mut Emitter)
        requires
            old(out).tabs() == 0,
        ensures
            final(out).tabs() == 0,
            final(out).text() == old(out).text() + type_block(sheet@),
    {
        let types = sheet.types();
        let ghost all = sheet@.types;
        let ghost start = out.text();
        out.push_line(concat3("export type ", sheet.name().as_str(), " = {").as_str());
        out.indent();
        let ghost head = out.text();
        let mut c: usize = 0;
        while c < types.len()
            invariant
                c <= types.len(),
                all == types.deep_view(),
                out.tabs() == 1,
                out.text() == head + type_fields(all.take(c as int)),
            decreases types.len() - c,
        {
            let column = &types[c];
            proof {
                assert(all.take(c + 1).drop_last() =~= all.take(c as int));
                assert(all.take(c + 1).last() == all[c as int]);
                assert(all[c as int] == (column.0@, column.1@));
            }
            out.push_line(concat4(column.0.as_str(), ": ", column.1.as_str(), ";").as_str());
            assert(out.text() =~= head + type_fields(all.take(c + 1)));
            c += 1;
        }
        assert(all.take(types.len() as int) =~= all);
        out.dedent();
        out.push_line("};");
        assert(out.text() =~= start + type_block(sheet@));
    }

    fn push_tables(config: &Config, out: &mut Emitter)
        requires
            old(out).tabs() == 0,
            config@.sheet.rows() > 0 ==> 0 <= config.table_name < config@.sheet.columns(),
        ensures
            final(out).tabs() == 0,
            final(out).text() == old(out).text() + table_section(config@),
    {
        let sheet = &config.sheet;
        let name = sheet.name();
        let types = sheet.types();
        let columns = sheet.sheet();
        let row_count = sheet.row_count();
        let ghost cfg = config@;
        let ghost start = out.text();
        out.push_line(concat3("local ", name.as_str(), " = {}").as_str());
        out.push("\n");
        let ghost head = out.text();
        let mut r: usize = 0;
        while r < row_count
            invariant
                r <= row_count,
                cfg == config@,
                cfg.sheet == sheet@,
                cfg.sheet.wf(),
                name@ == cfg.sheet.name,
                types.deep_view() == cfg.sheet.types,
                columns.deep_view() == cfg.sheet.sheet,
                row_count == cfg.sheet.rows(),
                row_count > 0 ==> 0 <= config.table_name < cfg.sheet.columns(),
                out.tabs() == 0,
                out.text() == head + tables(cfg, r as nat),
            decreases row_count - r,
        {
            let ghost before = out.text();
            let name_column: usize = config.table_name as usize;
            proof {
                assert(cfg.sheet.sheet[name_column as int].len() == row_count);
                assert(cfg.sheet.sheet[name_column as int] == columns[name_column as int].deep_view());
            }
            let column_id = key_of(&columns[name_column][r]);
            out.push_line(concat3(name.as_str(), column_id.as_str(), " = {").as_str());
            out.indent();
            let ghost opened = out.text();
            let mut c: usize = 0;
            while c < types.len()
                invariant
                    c <= types.len(),
                    r < row_count,
                    cfg.sheet.wf(),
                    types.deep_view() == cfg.sheet.types,
                    columns.deep_view() == cfg.sheet.sheet,
                    row_count == cfg.sheet.rows(),
                    out.tabs() == 1,
                    out.text() == opened + fields(cfg.sheet, r as int, c as nat),
                decreases types.len() - c,
            {
                proof {
                    assert(cfg.sheet.sheet[c as int].len() == row_count);
                    assert(cfg.sheet.sheet[c as int] == columns[c as int].deep_view());
                    assert(cfg.sheet.types[c as int] == (types[c as int].0@, types[c as int].1@));
                }
                let value = literal_of(&columns[c][r], "nil");
                out.push_line(concat4(types[c].0.as_str(), " = ", value.as_str(), ";").as_str());
                assert(out.text() =~= opened + fields(cfg.sheet, r as int, (c + 1) as nat));
                c += 1;
            }
            out.dedent();
            out.push_line("};");
            out.push("\n");
            proof {
                assert(types.len() == cfg.sheet.columns());
                assert(out.text() =~= before + table(cfg, r as int));
                assert(out.text() =~= head + tables(cfg, (r + 1) as nat));
            }
            r += 1;
        }
        out.push_line(concat3("return ", name.as_str(), ";").as_str());
        assert(out.text() =~= start + table_section(cfg));
    }

    /// Generates the module: the name of its file and its text.
    ///
    /// Fails with `NameColumnOutOfRange` where the sheet has a record and
    /// the name column is not one of its columns, and on no other input.
    pub fn generate(self) -> (r: Result<(String, String), SheetError>)
        ensures
            match r {
                Ok(file) => {
                    &&& self.config().name_column_in_range()
                    &&& file.0@ == file_name(self.config().sheet.name)
                    &&& file.1@ == module(self.config())
                },
                Err(e) => e == SheetError::NameColumnOutOfRange && !self.config().name_column_in_range(),
            },
    {
        proof {
            use_type_invariant(&self);
        }
        let Generator { config, out } = self;
        let mut out = out;
        let row_count = config.sheet.row_count();
        let column_count = config.sheet.types().len();
        if row_count > 0 && (config.table_name < 0 || config.table_name as usize >= column_count) {
            return Err(SheetError::NameColumnOutOfRange);
        }
        if !config.no_type {
            Self::push_type(&config.sheet, &mut out);
            out.push("\n");
        }
        Self::push_tables(&config, &mut out);
        let mut name = config.sheet.name().clone();
        name.append(".luau");
        let text = out.finish();
        assert(text@ =~= module(config@));
        Ok((name, text))
    }
}

/// Generates the Luau module of `config`: the name of its file and its
/// text.
///
/// Fails with `NameColumnOutOfRange` where the sheet has a record and the
/// name column is not one of its columns, and on no other input.
pub fn code(config: Config) -> (r: Result<(String, String), SheetError>)
    ensures
        match r {
            Ok(file) => {
                &&& config@.name_column_in_range()
                &&& file.0@ == file_name(config@.sheet.name)
                &&& file.1@ == module(config@)
            },
            Err(e) => e == SheetError::NameColumnOutOfRange && !config@.name_column_in_range(),
        },
{
    Generator::new(config).generate()
}

} // verus!
