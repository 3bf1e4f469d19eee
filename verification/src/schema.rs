//! Schema building: the DDL statements for every active table, and the
//! secondary-index statements derived from configured column lists. An index
//! specification is a comma-separated column list; the index name is the
//! table name joined with the trimmed column names by underscores.

use vstd::prelude::*;
use crate::config::{spec_active, active_tables, Config, TableConfig};

verus! {

use vstd::string::StrSliceExecFns;
use vstd::string::StringExecFns;

/// Whether `c` is blank space that trimming removes.
pub open spec fn is_space(c: char) -> bool {
    c == ' ' || c == '\t' || c == '\n' || c == '\r'
}

/// Position of the first comma at or after `pos`; `None` when there is none.
pub open spec fn comma_from(s: Seq<char>, pos: int) -> Option<int>
    decreases s.len() - pos,
{
    if pos < 0 || pos >= s.len() {
        None
    } else if s[pos] == ',' {
        Some(pos)
    } else {
        comma_from(s, pos + 1)
    }
}

/// The comma-separated pieces of the suffix of `s` starting at `pos`,
/// untrimmed. An empty string is one empty piece.
pub open spec fn split_from(s: Seq<char>, pos: int) -> Seq<Seq<char>>
    decreases s.len() - pos,
{
    match comma_from(s, pos) {
        None => seq![s.subrange(pos, s.len() as int)],
        Some(c) => if pos <= c < s.len() {
            seq![s.subrange(pos, c)] + split_from(s, c + 1)
        } else {
            seq![s.subrange(pos, s.len() as int)]
        },
    }
}

/// Leading blank space of `s`: the count of spaces at its start.
pub open spec fn leading_spaces(s: Seq<char>, from: int) -> int
    decreases s.len() - from,
{
    if from < 0 || from >= s.len() {
        s.len() as int
    } else if is_space(s[from]) {
        leading_spaces(s, from + 1)
    } else {
        from
    }
}

/// Trailing blank space of `s`: the position one past its last non-space.
pub open spec fn trailing_end(s: Seq<char>, upto: int) -> int
    decreases upto,
{
    if upto <= 0 {
        0
    } else if is_space(s[upto - 1]) {
        trailing_end(s, upto - 1)
    } else {
        upto
    }
}

/// `s` with leading and trailing blank space removed.
pub open spec fn trimmed(s: Seq<char>) -> Seq<char> {
    let start = leading_spaces(s, 0);
    let end = trailing_end(s, s.len() as int);
    if start <= end {
        s.subrange(start, end)
    } else {
        Seq::empty()
    }
}

/// The trimmed column names of a comma-separated column list.
pub open spec fn columns_of(s: Seq<char>) -> Seq<Seq<char>> {
    split_from(s, 0).map_values(|p: Seq<char>| trimmed(p))
}

/// `parts` joined by `sep`.
pub open spec fn join_with(parts: Seq<Seq<char>>, sep: Seq<char>) -> Seq<char>
    decreases parts.len(),
{
    if parts.len() == 0 {
        Seq::empty()
    } else if parts.len() == 1 {
        parts[0]
    } else {
        join_with(parts.drop_last(), sep) + sep + parts.last()
    }
}

/// The statement creating one secondary index: named after the table and
/// the column names joined by underscores, on the columns in order.
pub open spec fn index_sql(table: Seq<char>, cols: Seq<Seq<char>>) -> Seq<char> {
    "CREATE INDEX "@ + table + "_"@ + join_with(cols, "_"@) + " ON "@ + table + " ("@ + join_with(
        cols,
        ", "@,
    ) + ")"@
}

proof fn lemma_leading_spaces_bounds(s: Seq<char>, from: int)
    requires
        0 <= from <= s.len(),
    ensures
        from <= leading_spaces(s, from) <= s.len(),
    decreases s.len() - from,
{
    if from < s.len() && is_space(s[from]) {
        lemma_leading_spaces_bounds(s, from + 1);
    }
}

proof fn lemma_trailing_end_bounds(s: Seq<char>, upto: int)
    requires
        0 <= upto <= s.len(),
    ensures
        0 <= trailing_end(s, upto) <= upto,
    decreases upto,
{
    if upto > 0 && is_space(s[upto - 1]) {
        lemma_trailing_end_bounds(s, upto - 1);
    }
}

fn leading_end(s: &str, n: usize) -> (start: usize)
    requires
        n == s@.len(),
    ensures
        leading_spaces(s@, 0) == start as int,
        start <= n,
{
    let mut start: usize = 0;
    loop
        invariant
            0 <= start <= n,
            n == s@.len(),
            leading_spaces(s@, 0) == leading_spaces(s@, start as int),
        decreases n - start,
    {
        if start >= n {
            return start;
        }
        let c = s.get_char(start);
        if !(c == ' ' || c == '\t' || c == '\n' || c == '\r') {
            assert(leading_spaces(s@, start as int) == start as int);
            return start;
        }
        start += 1;
    }
}

fn trailing_start(s: &str, n: usize, low: usize) -> (end: usize)
    requires
        n == s@.len(),
        low <= n,
    ensures
        low <= end <= n,
        end > low ==> trailing_end(s@, n as int) == end as int,
        end == low ==> trailing_end(s@, n as int) <= end as int,
{
    let mut end: usize = n;
    loop
        invariant
            low <= end <= n,
            n == s@.len(),
            trailing_end(s@, n as int) == trailing_end(s@, end as int),
        decreases end,
    {
        if end <= low {
            proof {
                lemma_trailing_end_bounds(s@, end as int);
            }
            return end;
        }
        let c = s.get_char(end - 1);
        if !(c == ' ' || c == '\t' || c == '\n' || c == '\r') {
            assert(trailing_end(s@, end as int) == end as int);
            return end;
        }
        end -= 1;
    }
}

/// Trims leading and trailing blank space from one piece.
fn trim_piece(s: &str) -> (r: String)
    ensures
        r@ == trimmed(s@),
{
    let n = s.unicode_len();
    let start = leading_end(s, n);
    let end = trailing_start(s, n, start);
    let ghost st = leading_spaces(s@, 0);
    let ghost en = trailing_end(s@, s@.len() as int);
    proof {
        lemma_leading_spaces_bounds(s@, 0);
        lemma_trailing_end_bounds(s@, s@.len() as int);
    }
    if end <= start {
        proof {
            if st <= en {
                assert(en <= st);
                assert(s@.subrange(st, en) =~= Seq::<char>::empty());
            }
        }
        String::new()
    } else {
        let piece = s.substring_char(start, end);
        piece.to_owned()
    }
}

fn find_comma(text: &str, pos: usize, n: usize) -> (r: Option<usize>)
    requires
        n == text@.len(),
        pos <= n,
    ensures
        r matches Some(c) ==> comma_from(text@, pos as int) == Some(c as int) && pos <= c < n,
        r is None ==> comma_from(text@, pos as int) is None,
{
    let mut j: usize = pos;
    while j < n
        invariant
            pos <= j <= n,
            n == text@.len(),
            comma_from(text@, pos as int) == comma_from(text@, j as int),
        decreases n - j,
    {
        if text.get_char(j) == ',' {
            return Some(j);
        }
        j += 1;
    }
    None
}

/// The piece views of a piece vector.
pub open spec fn pieces_model(v: Seq<String>) -> Seq<Seq<char>> {
    v.map_values(|p: String| p@)
}

/// Splits a comma-separated column list into its trimmed column names.
pub fn split_columns(s: &String) -> (r: Vec<String>)
    ensures
        pieces_model(r@) == columns_of(s@),
{
    let text = s.as_str();
    let n = text.unicode_len();
    let mut out: Vec<String> = Vec::new();
    let mut pos: usize = 0;
    loop
        invariant
            0 <= pos <= n,
            n == s@.len(),
            text@ == s@,
            pieces_model(out@) =~= columns_of(s@).take(out@.len() as int),
            columns_of(s@).len() == out@.len() + split_from(s@, pos as int).len(),
            split_from(s@, 0).skip(out@.len() as int) =~= split_from(s@, pos as int),
        decreases n - pos,
    {
        match find_comma(text, pos, n) {
            Some(c) => {
                let piece = text.substring_char(pos, c);
                let col = trim_piece(piece);
                let ghost old_out = out@;
                out.push(col);
                proof {
                    assert(comma_from(s@, pos as int) == Some(c as int));
                    assert(split_from(s@, pos as int) == seq![s@.subrange(pos as int, c as int)]
                        + split_from(s@, c as int + 1));
                    assert(pieces_model(out@) =~= pieces_model(old_out).push(
                        trimmed(s@.subrange(pos as int, c as int)),
                    ));
                    assert(columns_of(s@)[old_out.len() as int] == trimmed(
                        split_from(s@, 0)[old_out.len() as int],
                    ));
                    assert(split_from(s@, 0)[old_out.len() as int] == split_from(
                        s@,
                        pos as int,
                    )[0]);
                    assert(pieces_model(out@) =~= columns_of(s@).take(out@.len() as int));
                    assert(split_from(s@, 0).skip(old_out.len() as int + 1) =~= split_from(
                        s@,
                        0,
                    ).skip(old_out.len() as int).skip(1));
                    assert((seq![s@.subrange(pos as int, c as int)] + split_from(
                        s@,
                        c as int + 1,
                    )).skip(1) =~= split_from(s@, c as int + 1));
                    assert(split_from(s@, 0).skip(out@.len() as int) =~= split_from(
                        s@,
                        c as int + 1,
                    ));
                }
                pos = c + 1;
            },
            None => {
                let piece = text.substring_char(pos, n);
                let col = trim_piece(piece);
                let ghost old_out = out@;
                out.push(col);
                proof {
                    assert(split_from(s@, pos as int) =~= seq![
                        s@.subrange(pos as int, s@.len() as int),
                    ]);
                    assert(pieces_model(out@) =~= pieces_model(old_out).push(
                        trimmed(s@.subrange(pos as int, s@.len() as int)),
                    ));
                    assert(columns_of(s@)[old_out.len() as int] == trimmed(
                        split_from(s@, 0)[old_out.len() as int],
                    ));
                    assert(split_from(s@, 0)[old_out.len() as int] == split_from(
                        s@,
                        pos as int,
                    )[0]);
                    assert(pieces_model(out@) =~= columns_of(s@).take(out@.len() as int));
                    assert(pieces_model(out@) =~= columns_of(s@));
                }
                return out;
            },
        }
    }
}

/// Joins column names with a separator.
fn join_columns(cols: &Vec<String>, sep: &str) -> (r: String)
    ensures
        r@ == join_with(pieces_model(cols@), sep@),
{
    let mut out = String::new();
    let mut i: usize = 0;
    while i < cols.len()
        invariant
            0 <= i <= cols@.len(),
            out@ == join_with(pieces_model(cols@).take(i as int), sep@),
        decreases cols@.len() - i,
    {
        if i > 0 {
            out.append(sep);
        }
        out.append(cols[i].as_str());
        proof {
            let parts = pieces_model(cols@);
            assert(parts.take(i as int + 1).drop_last() =~= parts.take(i as int));
            assert(parts.take(i as int + 1).last() == parts[i as int]);
            if i == 0 {
                assert(join_with(parts.take(1), sep@) == parts[0]);
            }
        }
        i += 1;
    }
    assert(pieces_model(cols@).take(cols@.len() as int) =~= pieces_model(cols@));
    out
}

/// Builds the statement creating one secondary index.
fn index_statement(table: &str, cols: &Vec<String>) -> (r: String)
    ensures
        r@ == index_sql(table@, pieces_model(cols@)),
{
    let mut out = String::new();
    out.append("CREATE INDEX ");
    out.append(table);
    out.append("_");
    let under = join_columns(cols, "_");
    out.append(under.as_str());
    out.append(" ON ");
    out.append(table);
    out.append(" (");
    let comma = join_columns(cols, ", ");
    out.append(comma.as_str());
    out.append(")");
    out
}

/// The index statements one table contributes.
pub open spec fn spec_index_statements(table: Seq<char>, tc: TableConfig) -> Seq<Seq<char>> {
    tc.create_index_on@.map_values(|s: String| index_sql(table, columns_of(s@)))
}

/// The statement views of a statement vector.
pub open spec fn stmts_model(v: Seq<String>) -> Seq<Seq<char>> {
    v.map_values(|p: String| p@)
}

fn push_index_statements(out: &mut Vec<String>, table: &str, tc: &TableConfig)
    ensures
        stmts_model(final (out)@) == stmts_model(old(out)@) + spec_index_statements(table@, *tc),
{
    let ghost base = stmts_model(out@);
    let ghost m = spec_index_statements(table@, *tc);
    let mut i: usize = 0;
    while i < tc.create_index_on.len()
        invariant
            0 <= i <= tc.create_index_on@.len(),
            m == spec_index_statements(table@, *tc),
            stmts_model(out@) =~= base + m.take(i as int),
        decreases tc.create_index_on@.len() - i,
    {
        let cols = split_columns(&tc.create_index_on[i]);
        let stmt = index_statement(table, &cols);
        let ghost prev = out@;
        out.push(stmt);
        proof {
            assert(stmts_model(out@) =~= stmts_model(prev).push(stmt@));
            assert(m[i as int] == index_sql(table@, columns_of(tc.create_index_on@[i as int]@)));
            assert(stmts_model(out@) =~= base + m.take(i as int + 1));
        }
        i += 1;
    }
    assert(m.take(tc.create_index_on@.len() as int) =~= m);
    assert(stmts_model(out@) =~= base + m);
}

/// The statements one table contributes to schema building: its CREATE
/// TABLE statement and then its secondary indexes, when it is active;
/// nothing otherwise.
pub open spec fn spec_table_block(
    active: bool,
    ddl: Seq<char>,
    table: Seq<char>,
    tc: TableConfig,
) -> Seq<Seq<char>> {
    if active {
        seq![ddl] + spec_index_statements(table, tc)
    } else {
        Seq::empty()
    }
}

/// The whole DDL of a configuration: for every active table, in a fixed
/// order, its CREATE TABLE statement followed by its index statements.
/// A dependent table's block is present only when its parent is active.
pub open spec fn spec_create_tables(cfg: Config) -> Seq<Seq<char>> {
    let act = spec_active(cfg);
    spec_table_block(act.header, "CREATE TABLE header (key TEXT, value TEXT)"@, "header"@, cfg.header)
        + spec_table_block(
        act.nodes,
        "CREATE TABLE nodes (id INTEGER PRIMARY KEY, lat INTEGER NOT NULL, lon INTEGER NOT NULL)"@,
        "nodes"@,
        cfg.nodes,
    ) + spec_table_block(
        act.node_tags,
        "CREATE TABLE node_tags (node_id INTEGER, key TEXT, value TEXT, FOREIGN KEY(node_id) REFERENCES nodes(id))"@,
        "node_tags"@,
        cfg.node_tags,
    ) + spec_table_block(
        act.node_info,
        "CREATE TABLE node_info (node_id INTEGER, version INTEGER, timestamp INTEGER, user_id INTEGER, user TEXT, visible BOOL, FOREIGN KEY(node_id) REFERENCES nodes(id))"@,
        "node_info"@,
        cfg.node_info,
    ) + spec_table_block(
        act.ways,
        "CREATE TABLE ways (id INTEGER PRIMARY KEY)"@,
        "ways"@,
        cfg.ways,
    ) + spec_table_block(
        act.way_tags,
        "CREATE TABLE way_tags (way_id INTEGER, key TEXT, value TEXT, FOREIGN KEY(way_id) REFERENCES ways(id))"@,
        "way_tags"@,
        cfg.way_tags,
    ) + spec_table_block(
        act.way_info,
        "CREATE TABLE way_info (way_id INTEGER, version INTEGER, timestamp INTEGER, user_id INTEGER, user TEXT, visible BOOL, FOREIGN KEY(way_id) REFERENCES ways(id))"@,
        "way_info"@,
        cfg.way_info,
    ) + spec_table_block(
        act.way_refs,
        "CREATE TABLE way_refs (way_id INTEGER, ref_node_id INTEGER, FOREIGN KEY(way_id) REFERENCES ways(id), FOREIGN KEY(ref_node_id) REFERENCES nodes(id) DEFERRABLE INITIALLY DEFERRED)"@,
        "way_refs"@,
        cfg.way_refs,
    ) + spec_table_block(
        act.relations,
        "CREATE TABLE relations (id INTEGER PRIMARY KEY)"@,
        "relations"@,
        cfg.relations,
    ) + spec_table_block(
        act.relation_members,
        "CREATE TABLE relation_members (relation_id INTEGER, member_node_id INTEGER, member_way_id INTEGER, member_relation_id INTEGER, role TEXT, FOREIGN KEY(relation_id) REFERENCES relations(id))"@,
        "relation_members"@,
        cfg.relation_members,
    ) + spec_table_block(
        act.relation_tags,
        "CREATE TABLE relation_tags (relation_id INTEGER, key TEXT, value TEXT, FOREIGN KEY(relation_id) REFERENCES relations(id))"@,
        "relation_tags"@,
        cfg.relation_tags,
    ) + spec_table_block(
        act.relation_info,
        "CREATE TABLE relation_info (relation_id INTEGER, version INTEGER, timestamp INTEGER, user_id INTEGER, user TEXT, visible BOOL, FOREIGN KEY(relation_id) REFERENCES relations(id))"@,
        "relation_info"@,
        cfg.relation_info,
    )
}

fn push_table_block(out: &mut Vec<String>, active: bool, ddl: &str, table: &str, tc: &TableConfig)
    ensures
        stmts_model(final (out)@) == stmts_model(old(out)@) + spec_table_block(
            active,
            ddl@,
            table@,
            *tc,
        ),
{
    if active {
        let ghost prev = out@;
        out.push(ddl.to_owned());
        assert(stmts_model(out@) =~= stmts_model(prev).push(ddl@));
        push_index_statements(out, table, tc);
        assert(stmts_model(prev).push(ddl@) + spec_index_statements(table@, *tc) =~= stmts_model(
            prev,
        ) + (seq![ddl@] + spec_index_statements(table@, *tc)));
    } else {
        assert(stmts_model(out@) =~= stmts_model(out@) + Seq::<Seq<char>>::empty());
    }
}

/// Builds the DDL of every active table: its CREATE TABLE statement, then
/// one CREATE INDEX statement per configured index specification. A child
/// table is built only when both it and its parent are not skipped.
pub fn create_tables(cfg: &Config) -> (r: Vec<String>)
    ensures
        stmts_model(r@) == spec_create_tables(*cfg),
{
    let act = active_tables(cfg);
    let mut out: Vec<String> = Vec::new();
    assert(stmts_model(out@) =~= Seq::<Seq<char>>::empty());
    push_table_block(
        &mut out,
        act.header,
        "CREATE TABLE header (key TEXT, value TEXT)",
        "header",
        &cfg.header,
    );
    push_table_block(
        &mut out,
        act.nodes,
        "CREATE TABLE nodes (id INTEGER PRIMARY KEY, lat INTEGER NOT NULL, lon INTEGER NOT NULL)",
        "nodes",
        &cfg.nodes,
    );
    push_table_block(
        &mut out,
        act.node_tags,
        "CREATE TABLE node_tags (node_id INTEGER, key TEXT, value TEXT, FOREIGN KEY(node_id) REFERENCES nodes(id))",
        "node_tags",
        &cfg.node_tags,
    );
    push_table_block(
        &mut out,
        act.node_info,
        "CREATE TABLE node_info (node_id INTEGER, version INTEGER, timestamp INTEGER, user_id INTEGER, user TEXT, visible BOOL, FOREIGN KEY(node_id) REFERENCES nodes(id))",
        "node_info",
        &cfg.node_info,
    );
    push_table_block(
        &mut out,
        act.ways,
        "CREATE TABLE ways (id INTEGER PRIMARY KEY)",
        "ways",
        &cfg.ways,
    );
    push_table_block(
        &mut out,
        act.way_tags,
        "CREATE TABLE way_tags (way_id INTEGER, key TEXT, value TEXT, FOREIGN KEY(way_id) REFERENCES ways(id))",
        "way_tags",
        &cfg.way_tags,
    );
    push_table_block(
        &mut out,
        act.way_info,
        "CREATE TABLE way_info (way_id INTEGER, version INTEGER, timestamp INTEGER, user_id INTEGER, user TEXT, visible BOOL, FOREIGN KEY(way_id) REFERENCES ways(id))",
        "way_info",
        &cfg.way_info,
    );
    push_table_block(
        &mut out,
        act.way_refs,
        "CREATE TABLE way_refs (way_id INTEGER, ref_node_id INTEGER, FOREIGN KEY(way_id) REFERENCES ways(id), FOREIGN KEY(ref_node_id) REFERENCES nodes(id) DEFERRABLE INITIALLY DEFERRED)",
        "way_refs",
        &cfg.way_refs,
    );
    push_table_block(
        &mut out,
        act.relations,
        "CREATE TABLE relations (id INTEGER PRIMARY KEY)",
        "relations",
        &cfg.relations,
    );
    push_table_block(
        &mut out,
        act.relation_members,
        "CREATE TABLE relation_members (relation_id INTEGER, member_node_id INTEGER, member_way_id INTEGER, member_relation_id INTEGER, role TEXT, FOREIGN KEY(relation_id) REFERENCES relations(id))",
        "relation_members",
        &cfg.relation_members,
    );
    push_table_block(
        &mut out,
        act.relation_tags,
        "CREATE TABLE relation_tags (relation_id INTEGER, key TEXT, value TEXT, FOREIGN KEY(relation_id) REFERENCES relations(id))",
        "relation_tags",
        &cfg.relation_tags,
    );
    push_table_block(
        &mut out,
        act.relation_info,
        "CREATE TABLE relation_info (relation_id INTEGER, version INTEGER, timestamp INTEGER, user_id INTEGER, user TEXT, visible BOOL, FOREIGN KEY(relation_id) REFERENCES relations(id))",
        "relation_info",
        &cfg.relation_info,
    );
    proof {
        assert(Seq::<Seq<char>>::empty() + spec_table_block(
            spec_active(*cfg).header,
            "CREATE TABLE header (key TEXT, value TEXT)"@,
            "header"@,
            cfg.header,
        ) =~= spec_table_block(
            spec_active(*cfg).header,
            "CREATE TABLE header (key TEXT, value TEXT)"@,
            "header"@,
            cfg.header,
        ));
    }
    out
}

/// The statement views of an optional-statement vector.
pub open spec fn opt_stmts_model(v: Seq<Option<String>>) -> Seq<Option<Seq<char>>> {
    v.map_values(
        |o: Option<String>|
            match o {
                Some(s) => Some(s@),
                None => None,
            },
    )
}

/// The row-insertion statement set of a configuration, in a fixed order:
/// nodes, node tags, node info, ways, way tags, way info, way refs,
/// relations, relation tags, relation info, relation members. An inactive
/// table gets no statement.
pub open spec fn spec_insert_statements(cfg: Config) -> Seq<Option<Seq<char>>> {
    let act = spec_active(cfg);
    seq![
        if act.nodes { Some("INSERT INTO nodes (id, lat, lon) VALUES (?1, ?2, ?3)"@) } else { None },
        if act.node_tags {
            Some("INSERT INTO node_tags (node_id, key, value) VALUES (?1, ?2, ?3)"@)
        } else {
            None
        },
        if act.node_info {
            Some(
                "INSERT INTO node_info (node_id, version, timestamp, user_id, user, visible) VALUES (?1, ?2, ?3, ?4, ?5, ?6)"@,
            )
        } else {
            None
        },
        if act.ways { Some("INSERT INTO ways (id) VALUES (?1)"@) } else { None },
        if act.way_tags {
            Some("INSERT INTO way_tags (way_id, key, value) VALUES (?1, ?2, ?3)"@)
        } else {
            None
        },
        if act.way_info {
            Some(
                "INSERT INTO way_info (way_id, version, timestamp, user_id, user, visible) VALUES (?1, ?2, ?3, ?4, ?5, ?6)"@,
            )
        } else {
            None
        },
        if act.way_refs {
            Some("INSERT INTO way_refs (way_id, ref_node_id) VALUES (?1, ?2)"@)
        } else {
            None
        },
        if act.relations { Some("INSERT INTO relations (id) VALUES (?1)"@) } else { None },
        if act.relation_tags {
            Some("INSERT INTO relation_tags (relation_id, key, value) VALUES (?1, ?2, ?3)"@)
        } else {
            None
        },
        if act.relation_info {
            Some(
                "INSERT INTO relation_info (relation_id, version, timestamp, user_id, user, visible) VALUES (?1, ?2, ?3, ?4, ?5, ?6)"@,
            )
        } else {
            None
        },
        if act.relation_members {
            Some(
                "INSERT INTO relation_members (relation_id, member_node_id, member_way_id, member_relation_id, role) VALUES (?1, ?2, ?3, ?4, ?5)"@,
            )
        } else {
            None
        },
    ]
}

fn opt_stmt(active: bool, sql: &str) -> (r: Option<String>)
    ensures
        active ==> (r matches Some(s) && s@ == sql@),
        !active ==> r is None,
{
    if active {
        Some(sql.to_owned())
    } else {
        None
    }
}

/// Builds the row-insertion statement set: one statement per active table,
/// none for an inactive one.
pub fn insert_statements(cfg: &Config) -> (r: Vec<Option<String>>)
    ensures
        opt_stmts_model(r@) == spec_insert_statements(*cfg),
{
    let act = active_tables(cfg);
    let mut out: Vec<Option<String>> = Vec::new();
    out.push(opt_stmt(act.nodes, "INSERT INTO nodes (id, lat, lon) VALUES (?1, ?2, ?3)"));
    out.push(opt_stmt(act.node_tags, "INSERT INTO node_tags (node_id, key, value) VALUES (?1, ?2, ?3)"));
    out.push(
        opt_stmt(
            act.node_info,
            "INSERT INTO node_info (node_id, version, timestamp, user_id, user, visible) VALUES (?1, ?2, ?3, ?4, ?5, ?6)",
        ),
    );
    out.push(opt_stmt(act.ways, "INSERT INTO ways (id) VALUES (?1)"));
    out.push(opt_stmt(act.way_tags, "INSERT INTO way_tags (way_id, key, value) VALUES (?1, ?2, ?3)"));
    out.push(
        opt_stmt(
            act.way_info,
            "INSERT INTO way_info (way_id, version, timestamp, user_id, user, visible) VALUES (?1, ?2, ?3, ?4, ?5, ?6)",
        ),
    );
    out.push(opt_stmt(act.way_refs, "INSERT INTO way_refs (way_id, ref_node_id) VALUES (?1, ?2)"));
    out.push(opt_stmt(act.relations, "INSERT INTO relations (id) VALUES (?1)"));
    out.push(
        opt_stmt(
            act.relation_tags,
            "INSERT INTO relation_tags (relation_id, key, value) VALUES (?1, ?2, ?3)",
        ),
    );
    out.push(
        opt_stmt(
            act.relation_info,
            "INSERT INTO relation_info (relation_id, version, timestamp, user_id, user, visible) VALUES (?1, ?2, ?3, ?4, ?5, ?6)",
        ),
    );
    out.push(
        opt_stmt(
            act.relation_members,
            "INSERT INTO relation_members (relation_id, member_node_id, member_way_id, member_relation_id, role) VALUES (?1, ?2, ?3, ?4, ?5)",
        ),
    );
    assert(opt_stmts_model(out@) =~= spec_insert_statements(*cfg));
    out
}

} // verus!
