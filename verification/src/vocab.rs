//! The lexer's vocabulary: the reserved keywords and the recognized type
//! names.
//!
//! The vocabulary is an immutable value built once and passed to the
//! tokenizer, so the tokenizer stays a pure function of its inputs. The
//! standard vocabulary below covers the dialect's statement grammars; a
//! caller may also build its own from configuration with
//! `Vocabulary::new`.

use vstd::prelude::*;
use crate::lexspec::kw_in;
use crate::strutil::str_eq;

verus! {

/// The two word sets the tokenizer consults: reserved keywords and
/// recognized data-type names, both matched case-insensitively against
/// upper-case entries.
pub struct Vocabulary {
    keywords: Vec<String>,
    types: Vec<String>,
}

impl Vocabulary {
    /// The keyword set as a sequence of character sequences.
    pub closed spec fn kws(self) -> Seq<Seq<char>> {
        self.keywords@.map_values(|s: String| s@)
    }

    /// The type-name set as a sequence of character sequences.
    pub closed spec fn tys(self) -> Seq<Seq<char>> {
        self.types@.map_values(|s: String| s@)
    }

    /// A vocabulary from caller-supplied word lists.
    pub fn new(keywords: Vec<String>, types: Vec<String>) -> (v: Vocabulary)
        ensures
            v.kws() == keywords@.map_values(|s: String| s@),
            v.tys() == types@.map_values(|s: String| s@),
    {
        Vocabulary { keywords, types }
    }

    /// The standard vocabulary of the dialect.
    pub fn standard() -> (v: Vocabulary)
        ensures
            v.kws() == std_keywords(),
            v.tys() == std_types(),
    {
        let mut kws: Vec<String> = Vec::new();
        kws.push(String::from_str("SELECT"));
        kws.push(String::from_str("FROM"));
        kws.push(String::from_str("WHERE"));
        kws.push(String::from_str("GROUP"));
        kws.push(String::from_str("BY"));
        kws.push(String::from_str("HAVING"));
        kws.push(String::from_str("ORDER"));
        kws.push(String::from_str("LIMIT"));
        kws.push(String::from_str("OFFSET"));
        kws.push(String::from_str("ASC"));
        kws.push(String::from_str("DESC"));
        kws.push(String::from_str("DISTINCT"));
        kws.push(String::from_str("ALL"));
        kws.push(String::from_str("AS"));
        kws.push(String::from_str("AND"));
        kws.push(String::from_str("OR"));
        kws.push(String::from_str("NOT"));
        kws.push(String::from_str("NULL"));
        kws.push(String::from_str("IN"));
        kws.push(String::from_str("BETWEEN"));
        kws.push(String::from_str("IS"));
        kws.push(String::from_str("LIKE"));
        kws.push(String::from_str("INSERT"));
        kws.push(String::from_str("INTO"));
        kws.push(String::from_str("VALUES"));
        kws.push(String::from_str("SET"));
        kws.push(String::from_str("ON"));
        kws.push(String::from_str("DUPLICATE"));
        kws.push(String::from_str("KEY"));
        kws.push(String::from_str("UPDATE"));
        kws.push(String::from_str("DELETE"));
        kws.push(String::from_str("DEFAULT"));
        kws.push(String::from_str("CREATE"));
        kws.push(String::from_str("TABLE"));
        kws.push(String::from_str("DROP"));
        kws.push(String::from_str("ALTER"));
        kws.push(String::from_str("IF"));
        kws.push(String::from_str("EXISTS"));
        kws.push(String::from_str("PRIMARY"));
        kws.push(String::from_str("UNIQUE"));
        kws.push(String::from_str("FOREIGN"));
        kws.push(String::from_str("REFERENCES"));
        kws.push(String::from_str("JOIN"));
        kws.push(String::from_str("INNER"));
        kws.push(String::from_str("LEFT"));
        kws.push(String::from_str("RIGHT"));
        kws.push(String::from_str("OUTER"));
        kws.push(String::from_str("UNION"));
        kws.push(String::from_str("USE"));
        kws.push(String::from_str("SHOW"));
        kws.push(String::from_str("EXPLAIN"));
        kws.push(String::from_str("ENGINE"));
        kws.push(String::from_str("CHARSET"));
        kws.push(String::from_str("COLLATE"));
        kws.push(String::from_str("COMMENT"));
        kws.push(String::from_str("AUTO_INCREMENT"));
        kws.push(String::from_str("UNSIGNED"));
        let mut tys: Vec<String> = Vec::new();
        tys.push(String::from_str("VARCHAR"));
        tys.push(String::from_str("CHAR"));
        tys.push(String::from_str("TEXT"));
        tys.push(String::from_str("TINYTEXT"));
        tys.push(String::from_str("MEDIUMTEXT"));
        tys.push(String::from_str("LONGTEXT"));
        tys.push(String::from_str("INT"));
        tys.push(String::from_str("INTEGER"));
        tys.push(String::from_str("BIGINT"));
        tys.push(String::from_str("SMALLINT"));
        tys.push(String::from_str("TINYINT"));
        tys.push(String::from_str("MEDIUMINT"));
        tys.push(String::from_str("DECIMAL"));
        tys.push(String::from_str("NUMERIC"));
        tys.push(String::from_str("FLOAT"));
        tys.push(String::from_str("DOUBLE"));
        tys.push(String::from_str("BOOLEAN"));
        tys.push(String::from_str("BOOL"));
        tys.push(String::from_str("DATE"));
        tys.push(String::from_str("TIME"));
        tys.push(String::from_str("DATETIME"));
        tys.push(String::from_str("TIMESTAMP"));
        tys.push(String::from_str("YEAR"));
        tys.push(String::from_str("BLOB"));
        tys.push(String::from_str("BINARY"));
        tys.push(String::from_str("VARBINARY"));
        tys.push(String::from_str("JSON"));
        tys.push(String::from_str("ENUM"));
        let v = Vocabulary { keywords: kws, types: tys };
        proof {
            assert(v.kws() =~~= std_keywords());
            assert(v.tys() =~~= std_types());
        }
        v
    }

    /// Whether the upper-case word `w` is a reserved keyword.
    pub fn has_keyword(&self, w: &String) -> (r: bool)
        ensures
            r == kw_in(self.kws(), w@),
    {
        word_in(&self.keywords, w)
    }

    /// Whether the upper-case word `w` is a recognized type name.
    pub fn has_type(&self, w: &String) -> (r: bool)
        ensures
            r == kw_in(self.tys(), w@),
    {
        word_in(&self.types, w)
    }
}

/// Membership of a word in a word list.
fn word_in(list: &Vec<String>, w: &String) -> (r: bool)
    ensures
        r == kw_in(list@.map_values(|s: String| s@), w@),
{
    let ghost model = list@.map_values(|s: String| s@);
    let mut i: usize = 0;
    while i < list.len()
        invariant
            0 <= i <= list@.len(),
            model == list@.map_values(|s: String| s@),
            forall|j: int| 0 <= j < i ==> #[trigger] model[j] != w@,
        decreases list@.len() - i,
    {
        if str_eq(list[i].as_str(), w.as_str()) {
            assert(model[i as int] == w@);
            return true;
        }
        i += 1;
    }
    false
}

/// The standard keyword set.
pub open spec fn std_keywords() -> Seq<Seq<char>> {
    seq![
        "SELECT"@, "FROM"@, "WHERE"@, "GROUP"@, "BY"@, "HAVING"@, "ORDER"@, "LIMIT"@,
        "OFFSET"@, "ASC"@, "DESC"@, "DISTINCT"@, "ALL"@, "AS"@, "AND"@, "OR"@,
        "NOT"@, "NULL"@, "IN"@, "BETWEEN"@, "IS"@, "LIKE"@, "INSERT"@, "INTO"@,
        "VALUES"@, "SET"@, "ON"@, "DUPLICATE"@, "KEY"@, "UPDATE"@, "DELETE"@, "DEFAULT"@,
        "CREATE"@, "TABLE"@, "DROP"@, "ALTER"@, "IF"@, "EXISTS"@, "PRIMARY"@, "UNIQUE"@,
        "FOREIGN"@, "REFERENCES"@, "JOIN"@, "INNER"@, "LEFT"@, "RIGHT"@, "OUTER"@, "UNION"@,
        "USE"@, "SHOW"@, "EXPLAIN"@, "ENGINE"@, "CHARSET"@, "COLLATE"@, "COMMENT"@,
        "AUTO_INCREMENT"@, "UNSIGNED"@,
    ]
}

/// The standard type-name set.
pub open spec fn std_types() -> Seq<Seq<char>> {
    seq![
        "VARCHAR"@, "CHAR"@, "TEXT"@, "TINYTEXT"@, "MEDIUMTEXT"@, "LONGTEXT"@, "INT"@,
        "INTEGER"@, "BIGINT"@, "SMALLINT"@, "TINYINT"@, "MEDIUMINT"@, "DECIMAL"@, "NUMERIC"@,
        "FLOAT"@, "DOUBLE"@, "BOOLEAN"@, "BOOL"@, "DATE"@, "TIME"@, "DATETIME"@,
        "TIMESTAMP"@, "YEAR"@, "BLOB"@, "BINARY"@, "VARBINARY"@, "JSON"@, "ENUM"@,
    ]
}

/// No entry of a word list begins with a single quote.
pub open spec fn no_quote_entries(list: Seq<Seq<char>>) -> bool {
    forall|k: int|
        0 <= k < list.len() ==> (#[trigger] list[k]).len() == 0 || list[k][0] != '\''
}

/// The standard vocabulary's entries all begin with an ASCII letter, so in
/// particular none begins with a single quote.
pub proof fn lemma_std_vocab_no_quote()
    ensures
        no_quote_entries(std_keywords()),
        no_quote_entries(std_types()),
{
    reveal_strlit("SELECT");
    reveal_strlit("FROM");
    reveal_strlit("WHERE");
    reveal_strlit("GROUP");
    reveal_strlit("BY");
    reveal_strlit("HAVING");
    reveal_strlit("ORDER");
    reveal_strlit("LIMIT");
    reveal_strlit("OFFSET");
    reveal_strlit("ASC");
    reveal_strlit("DESC");
    reveal_strlit("DISTINCT");
    reveal_strlit("ALL");
    reveal_strlit("AS");
    reveal_strlit("AND");
    reveal_strlit("OR");
    reveal_strlit("NOT");
    reveal_strlit("NULL");
    reveal_strlit("IN");
    reveal_strlit("BETWEEN");
    reveal_strlit("IS");
    reveal_strlit("LIKE");
    reveal_strlit("INSERT");
    reveal_strlit("INTO");
    reveal_strlit("VALUES");
    reveal_strlit("SET");
    reveal_strlit("ON");
    reveal_strlit("DUPLICATE");
    reveal_strlit("KEY");
    reveal_strlit("UPDATE");
    reveal_strlit("DELETE");
    reveal_strlit("DEFAULT");
    reveal_strlit("CREATE");
    reveal_strlit("TABLE");
    reveal_strlit("DROP");
    reveal_strlit("ALTER");
    reveal_strlit("IF");
    reveal_strlit("EXISTS");
    reveal_strlit("PRIMARY");
    reveal_strlit("UNIQUE");
    reveal_strlit("FOREIGN");
    reveal_strlit("REFERENCES");
    reveal_strlit("JOIN");
    reveal_strlit("INNER");
    reveal_strlit("LEFT");
    reveal_strlit("RIGHT");
    reveal_strlit("OUTER");
    reveal_strlit("UNION");
    reveal_strlit("USE");
    reveal_strlit("SHOW");
    reveal_strlit("EXPLAIN");
    reveal_strlit("ENGINE");
    reveal_strlit("CHARSET");
    reveal_strlit("COLLATE");
    reveal_strlit("COMMENT");
    reveal_strlit("AUTO_INCREMENT");
    reveal_strlit("UNSIGNED");
    reveal_strlit("VARCHAR");
    reveal_strlit("CHAR");
    reveal_strlit("TEXT");
    reveal_strlit("TINYTEXT");
    reveal_strlit("MEDIUMTEXT");
    reveal_strlit("LONGTEXT");
    reveal_strlit("INT");
    reveal_strlit("INTEGER");
    reveal_strlit("BIGINT");
    reveal_strlit("SMALLINT");
    reveal_strlit("TINYINT");
    reveal_strlit("MEDIUMINT");
    reveal_strlit("DECIMAL");
    reveal_strlit("NUMERIC");
    reveal_strlit("FLOAT");
    reveal_strlit("DOUBLE");
    reveal_strlit("BOOLEAN");
    reveal_strlit("BOOL");
    reveal_strlit("DATE");
    reveal_strlit("TIME");
    reveal_strlit("DATETIME");
    reveal_strlit("TIMESTAMP");
    reveal_strlit("YEAR");
    reveal_strlit("BLOB");
    reveal_strlit("BINARY");
    reveal_strlit("VARBINARY");
    reveal_strlit("JSON");
    reveal_strlit("ENUM");
    assert forall|k: int| 0 <= k < std_keywords().len() implies (#[trigger] std_keywords()[
        k
    ]).len() == 0 || std_keywords()[k][0] != '\'' by {}
    assert forall|k: int| 0 <= k < std_types().len() implies (#[trigger] std_types()[k]).len() == 0
        || std_types()[k][0] != '\'' by {}
}

} // verus!
