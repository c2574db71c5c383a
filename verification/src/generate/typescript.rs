//! The TypeScript dialect: an interface and one constant for each record.

use crate::error::SheetError;
use crate::generate::{concat3, concat4, line, literal, literal_of, Config, ConfigView, Emitter};
use crate::sheet::{Sheet, SheetView};
use vstd::prelude::*;

verus! {

/// One field of the interface: `name: type,`.
pub open spec fn type_field(column: (Seq<char>, Seq<char>)) -> Seq<char> {
    column.0 + ": "@ + column.1 + ","@
}

/// The fields of the interface, one line for each column.
pub open spec fn type_fields(types: Seq<(Seq<char>, Seq<char>)>) -> Seq<char>
    decreases types.len(),
{
    if types.len() == 0 {
        Seq::empty()
    } else {
        type_fields(types.drop_last()) + line(1, type_field(types.last()))
    }
}

/// The interface of a sheet.
pub open spec fn type_block(sheet: SheetView) -> Seq<char> {
    line(0, "export interface "@ + sheet.name + " {"@) + type_fields(sheet.types) + line(0, "};"@)
}

/// The field of record `r` for column `c`: `name: value,`.
pub open spec fn field(sheet: SheetView, c: int, r: int) -> Seq<char> {
    sheet.types[c].0 + ": "@ + literal(sheet.sheet[c][r], "undefined"@) + ","@
}

/// The fields of record `r` for the first `upto` columns but the name
/// column, one line each.
pub open spec fn fields(config: ConfigView, r: int, upto: nat) -> Seq<char>
    decreases upto,
{
    if upto == 0 {
        Seq::empty()
    } else if upto - 1 == config.table_name {
        fields(config, r, (upto - 1) as nat)
    } else {
        fields(config, r, (upto - 1) as nat) + line(1, field(config.sheet, upto - 1, r))
    }
}

/// The constant of record `r`, named by the bare text of the value of the
/// name column, and an empty line behind it.
pub open spec fn object(config: ConfigView, r: int) -> Seq<char> {
    line(0, "export const "@ + config.sheet.sheet[config.table_name][r].text() + " = {"@) + fields(
        config,
        r,
        config.sheet.columns(),
    ) + line(0, "};"@) + "\n"@
}

/// The constants of the first `upto` records.
pub open spec fn objects(config: ConfigView, upto: nat) -> Seq<char>
    decreases upto,
{
    if upto == 0 {
        Seq::empty()
    } else {
        objects(config, (upto - 1) as nat) + object(config, upto - 1)
    }
}

/// The text of the generated module.
pub open spec fn module(config: ConfigView) -> Seq<char> {
    if config.no_type {
        objects(config, config.sheet.rows())
    } else {
        type_block(config.sheet) + "\n"@ + objects(config, config.sheet.rows())
    }
}

/// The name of the generated file.
pub open spec fn file_name(name: Seq<char>) -> Seq<char> {
    name + ".ts"@
}

/// The generator of the TypeScript dialect.
pub struct Generator {
    config: Config,
    out: Emitter,
}

impl Generator {
    #[verifier::type_invariant]
    spec fn fresh(self) -> bool {
        self.out.tabs() == 0 && self.out.text() == Seq::<char>::empty()
    }

    /// The configuration that the generator works from.
    pub closed spec fn config(&self) -> ConfigView {
        self.config@
    }

    /// A generator for `config` that has written nothing yet.
    pub fn new(config: Config) -> (g: Generator)
        ensures
            g.config() == config@,
    {
        Generator { config, out: Emitter::new() }
    }

    fn push_type(sheet: &Sheet, out: &mut Emitter)
        requires
            old(out).tabs() == 0,
        ensures
            final(out).tabs() == 0,
            final(out).text() == old(out).text() + type_block(sheet@),
    {
        let types = sheet.types();
        let ghost all = sheet@.types;
        let ghost start = out.text();
        out.push_line(concat3("export interface ", sheet.name().as_str(), " {").as_str());
        out.indent();
        let ghost head = out.text();
        let mut c: usize = 0;
        while c < types.len()
            invariant
                c <= types.len(),
                all == types.deep_view(),
                out.tabs() == 1,
                out.text() == head + type_fields(all.take(c as int)),
            decreases types.len() - c,
        {
            let column = &types[c];
            proof {
                assert(all.take(c + 1).drop_last() =~= all.take(c as int));
                assert(all.take(c + 1).last() == all[c as int]);
                assert(all[c as int] == (column.0@, column.1@));
            }
            out.push_line(concat4(column.0.as_str(), ": ", column.1.as_str(), ",").as_str());
            assert(out.text() =~= head + type_fields(all.take(c + 1)));
            c += 1;
        }
        assert(all.take(types.len() as int) =~= all);
        out.dedent();
        out.push_line("};");
        assert(out.text() =~= start + type_block(sheet@));
    }

    fn push_objects(config: &Config, out: &mut Emitter)
        requires
            old(out).tabs() == 0,
            config@.sheet.rows() > 0 ==> 0 <= config.table_name < config@.sheet.columns(),
        ensures
            final(out).tabs() == 0,
            final(out).text() == old(out).text() + objects(config@, config@.sheet.rows()),
    {
        let sheet = &config.sheet;
        let types = sheet.types();
        let columns = sheet.sheet();
        let row_count = sheet.row_count();
        let ghost cfg = config@;
        let ghost head = out.text();
        let mut r: usize = 0;
        assert(out.text() =~= head + objects(cfg, 0));
        while r < row_count
            invariant
                r <= row_count,
                cfg == config@,
                cfg.sheet == sheet@,
                cfg.sheet.wf(),
                types.deep_view() == cfg.sheet.types,
                columns.deep_view() == cfg.sheet.sheet,
                row_count == cfg.sheet.rows(),
                row_count > 0 ==> 0 <= config.table_name < cfg.sheet.columns(),
                out.tabs() == 0,
                out.text() == head + objects(cfg, r as nat),
            decreases row_count - r,
        {
            let ghost before = out.text();
            let name_column: usize = config.table_name as usize;
            proof {
                assert(cfg.sheet.sheet[name_column as int].len() == row_count);
                assert(cfg.sheet.sheet[name_column as int] == columns[name_column as int].deep_view());
            }
            let object_name = columns[name_column][r].text();
            out.push_line(concat3("export const ", object_name.as_str(), " = {").as_str());
            out.indent();
            let ghost opened = out.text();
            let mut c: usize = 0;
            assert(out.text() =~= opened + fields(cfg, r as int, 0));
            while c < types.len()
                invariant
                    c <= types.len(),
                    r < row_count,
                    cfg.sheet.wf(),
                    cfg.table_name == name_column,
                    types.deep_view() == cfg.sheet.types,
                    columns.deep_view() == cfg.sheet.sheet,
                    row_count == cfg.sheet.rows(),
                    out.tabs() == 1,
                    out.text() == opened + fields(cfg, r as int, c as nat),
                decreases types.len() - c,
            {
                if c != name_column {
                    proof {
                        assert(cfg.sheet.sheet[c as int].len() == row_count);
                        assert(cfg.sheet.sheet[c as int] == columns[c as int].deep_view());
                        assert(cfg.sheet.types[c as int] == (types[c as int].0@, types[c as int].1@));
                    }
                    let value = literal_of(&columns[c][r], "undefined");
                    out.push_line(concat4(types[c].0.as_str(), ": ", value.as_str(), ",").as_str());
                }
                assert(out.text() =~= opened + fields(cfg, r as int, (c + 1) as nat));
                c += 1;
            }
            out.dedent();
            out.push_line("};");
            out.push("\n");
            proof {
                assert(types.len() == cfg.sheet.columns());
                assert(out.text() =~= before + object(cfg, r as int));
                assert(out.text() =~= head + objects(cfg, (r + 1) as nat));
            }
            r += 1;
        }
    }

    /// Generates the module: the name of its file and its text.
    ///
    /// Fails with `NameColumnOutOfRange` where the sheet has a record and
    /// the name column is not one of its columns, and on no other input.
    pub fn generate(self) -> (r: Result<(String, String), SheetError>)
        ensures
            match r {
                Ok(file) => {
                    &&& self.config().name_column_in_range()
                    &&& file.0@ == file_name(self.config().sheet.name)
                    &&& file.1@ == module(self.config())
                },
                Err(e) => e == SheetError::NameColumnOutOfRange && !self.config().name_column_in_range(),
            },
    {
        proof {
            use_type_invariant(&self);
        }
        let Generator { config, out } = self;
        let mut out = out;
        let row_count = config.sheet.row_count();
        let column_count = config.sheet.types().len();
        if row_count > 0 && (config.table_name < 0 || config.table_name as usize >= column_count) {
            return Err(SheetError::NameColumnOutOfRange);
        }
        if !config.no_type {
            Self::push_type(&config.sheet, &mut out);
            out.push("\n");
        }
        Self::push_objects(&config, &mut out);
        let mut name = config.sheet.name().clone();
        name.append(".ts");
        let text = out.finish();
        assert(text@ =~= module(config@));
        Ok((name, text))
    }
}

/// Generates the TypeScript module of `config`: the name of its file and
/// its text.
///
/// Fails with `NameColumnOutOfRange` where the sheet has a record and the
/// name column is not one of its columns, and on no other input.
pub fn code(config: Config) -> (r: Result<(String, String), SheetError>)
    ensures
        match r {
            Ok(file) => {
                &&& config@.name_column_in_range()
                &&& file.0@ == file_name(config@.sheet.name)
                &&& file.1@ == module(config@)
            },
            Err(e) => e == SheetError::NameColumnOutOfRange && !config@.name_column_in_range(),
        },
{
    Generator::new(config).generate()
}

} // verus!
