//! Stored connections: the texts that the user types for them and the lines
//! they are kept in, one connection a line, written `id;address;name`.

use vstd::prelude::*;
use vstd::string::*;
use crate::app::{Connection, ConnectionModel};
use crate::text::{
    blank, decimal, is_blank, parse_usize, parsed_usize, split, split_on, texts, trim, trimmed,
    decimal_text,
};

verus! {

/// The pieces of the trimmed `input` between semicolons, each trimmed.
pub open spec fn trimmed_parts(input: Seq<char>) -> Seq<Seq<char>> {
    let parts = split_on(trimmed(input), ';');
    Seq::new(parts.len(), |i: int| trimmed(parts[i]))
}

/// The pieces of the trimmed `input` between semicolons, each trimmed.
pub fn split_trimmed(input: &str) -> (parts: Vec<String>)
    ensures
        texts(parts@) == trimmed_parts(input@),
{
    let raw = split(trim(input), ';');
    let mut parts: Vec<String> = Vec::new();
    let mut i: usize = 0;
    while i < raw.len()
        invariant
            0 <= i <= raw.len(),
            parts.len() == i,
            forall|j: int| 0 <= j < i ==> parts@[j]@ == trimmed(raw@[j]@),
        decreases raw.len() - i,
    {
        parts.push(trim(raw[i].as_str()).to_owned());
        i += 1;
    }
    proof {
        assert(texts(parts@) =~= trimmed_parts(input@));
    }
    parts
}

/// The address and the name that `input` gives for a new connection: it must
/// hold exactly two pieces, neither of them empty.
pub open spec fn parsed_connection_input(input: Seq<char>) -> Option<(Seq<char>, Seq<char>)> {
    let p = trimmed_parts(input);
    if p.len() == 2 && p[0].len() > 0 && p[1].len() > 0 {
        Some((p[0], p[1]))
    } else {
        None
    }
}

/// Reads `address;name`, the text typed for a new connection.
pub fn parse_connection_input(input: &str) -> (r: Option<(String, String)>)
    ensures
        r.deep_view() == parsed_connection_input(input@),
{
    let parts = split_trimmed(input);
    if parts.len() == 2 {
        let uri = parts[0].as_str();
        let name = parts[1].as_str();
        if !uri.is_empty() && !name.is_empty() {
            return Some((uri.to_owned(), name.to_owned()));
        }
    }
    None
}

/// Why the text typed for a stored connection is refused.
#[derive(Clone, Copy, Debug, PartialEq, Eq, Structural)]
pub enum ConnectionInputError {
    /// The text does not hold exactly three pieces.
    InvalidFormat,
    /// The first piece is no number.
    IdNotNumber,
    EmptyName,
    EmptyUri,
}

impl ConnectionInputError {
    /// The message shown for this error.
    pub fn message(&self) -> (m: String)
        ensures
            m@ == connection_error_message(*self),
    {
        match self {
            ConnectionInputError::InvalidFormat => "Invalid input format".to_owned(),
            ConnectionInputError::IdNotNumber => "ID must be a number".to_owned(),
            ConnectionInputError::EmptyName => "Connection name cannot be empty".to_owned(),
            ConnectionInputError::EmptyUri => "URI cannot be empty".to_owned(),
        }
    }
}

pub open spec fn connection_error_message(e: ConnectionInputError) -> Seq<char> {
    match e {
        ConnectionInputError::InvalidFormat => "Invalid input format"@,
        ConnectionInputError::IdNotNumber => "ID must be a number"@,
        ConnectionInputError::EmptyName => "Connection name cannot be empty"@,
        ConnectionInputError::EmptyUri => "URI cannot be empty"@,
    }
}

/// The connection that `input` gives for a stored connection: three pieces,
/// the first a number, the other two not blank.
pub open spec fn parsed_connection_update(input: Seq<char>) -> Result<
    ConnectionModel,
    ConnectionInputError,
> {
    let p = trimmed_parts(input);
    if p.len() != 3 {
        Err(ConnectionInputError::InvalidFormat)
    } else {
        match parsed_usize(p[0]) {
            None => Err(ConnectionInputError::IdNotNumber),
            Some(id) => if is_blank(p[2]) {
                Err(ConnectionInputError::EmptyName)
            } else if is_blank(p[1]) {
                Err(ConnectionInputError::EmptyUri)
            } else {
                Ok(ConnectionModel { id, uri: p[1], name: p[2] })
            },
        }
    }
}

/// Reads `id;address;name`, the text typed for a stored connection.
pub fn parse_connection_update(input: &str) -> (r: Result<Connection, ConnectionInputError>)
    ensures
        match r {
            Ok(c) => parsed_connection_update(input@) == Ok::<
                ConnectionModel,
                ConnectionInputError,
            >(c.deep_view()),
            Err(e) => parsed_connection_update(input@) == Err::<
                ConnectionModel,
                ConnectionInputError,
            >(e),
        },
{
    let parts = split_trimmed(input);
    if parts.len() != 3 {
        return Err(ConnectionInputError::InvalidFormat);
    }
    let id = match parse_usize(parts[0].as_str()) {
        Some(id) => id,
        None => {
            return Err(ConnectionInputError::IdNotNumber);
        },
    };
    if blank(parts[2].as_str()) {
        return Err(ConnectionInputError::EmptyName);
    }
    if blank(parts[1].as_str()) {
        return Err(ConnectionInputError::EmptyUri);
    }
    Ok(Connection { id, uri: parts[1].clone(), name: parts[2].clone() })
}

/// The connections among the first `n` of `conns` whose identifier is not
/// `id`, in order.
pub open spec fn others(conns: Seq<ConnectionModel>, id: usize, n: nat) -> Seq<ConnectionModel>
    decreases n,
{
    if n == 0 || n > conns.len() {
        Seq::empty()
    } else {
        let before = others(conns, id, (n - 1) as nat);
        if conns[n - 1].id != id {
            before.push(conns[n - 1])
        } else {
            before
        }
    }
}

/// `conns` with `c` in place of every connection that has its identifier: the
/// others in order, then `c`.
pub open spec fn with_connection(conns: Seq<ConnectionModel>, c: ConnectionModel) -> Seq<
    ConnectionModel,
> {
    others(conns, c.id, conns.len()).push(c)
}

/// Reads `id;address;name` and puts the connection it gives in place of
/// every connection of `connections` that has its identifier. A text that
/// is refused leaves the list as it is.
pub fn update_connection(input: &str, connections: &mut Vec<Connection>) -> (r: Result<
    (),
    ConnectionInputError,
>)
    ensures
        match parsed_connection_update(input@) {
            Ok(c) => r is Ok && final(connections).deep_view() == with_connection(
                old(connections).deep_view(),
                c,
            ),
            Err(e) => r == Err::<(), ConnectionInputError>(e) && final(connections).deep_view()
                == old(connections).deep_view(),
        },
{
    let c = match parse_connection_update(input) {
        Ok(c) => c,
        Err(e) => {
            return Err(e);
        },
    };
    let ghost all = connections.deep_view();
    let mut kept: Vec<Connection> = Vec::new();
    let mut i: usize = 0;
    proof {
        assert(kept.deep_view() =~= others(all, c.id, 0));
    }
    while i < connections.len()
        invariant
            0 <= i <= connections.len(),
            all == connections.deep_view(),
            kept.deep_view() == others(all, c.id, i as nat),
        decreases connections.len() - i,
    {
        let ghost before = kept.deep_view();
        if connections[i].id != c.id {
            kept.push(connections[i].clone());
            proof {
                assert(kept.deep_view() =~= before.push(all[i as int]));
            }
        }
        i += 1;
    }
    let ghost before = kept.deep_view();
    let ghost added = c.deep_view();
    kept.push(c);
    proof {
        assert(kept.deep_view() =~= before.push(added));
    }
    *connections = kept;
    Ok(())
}

/// The line that a connection is kept in.
pub open spec fn connection_line_of(c: ConnectionModel) -> Seq<char> {
    decimal(c.id as nat) + ";"@ + c.uri + ";"@ + c.name
}

/// The line that a connection is kept in: `id;address;name`.
pub fn connection_line(c: &Connection) -> (line: String)
    ensures
        line@ == connection_line_of(c.deep_view()),
{
    let mut line = decimal_text(c.id as u64);
    line.append(";");
    line.append(c.uri.as_str());
    line.append(";");
    line.append(c.name.as_str());
    line
}

/// The lines that `conns` are kept in, one each, in order.
pub fn overwrite_connections(conns: &Vec<Connection>) -> (lines: Vec<String>)
    ensures
        lines.len() == conns.len(),
        forall|i: int|
            0 <= i < conns.len() ==> (#[trigger] lines@[i])@ == connection_line_of(
                conns@[i].deep_view(),
            ),
{
    let mut lines: Vec<String> = Vec::new();
    let mut i: usize = 0;
    while i < conns.len()
        invariant
            0 <= i <= conns.len(),
            lines.len() == i,
            forall|j: int|
                0 <= j < i ==> (#[trigger] lines@[j])@ == connection_line_of(
                    conns@[j].deep_view(),
                ),
        decreases conns.len() - i,
    {
        lines.push(connection_line(&conns[i]));
        i += 1;
    }
    lines
}

/// The connection that a stored line gives: exactly three pieces between
/// semicolons, the first of them a number. The pieces are taken as they are.
pub open spec fn parsed_line(line: Seq<char>) -> Option<ConnectionModel> {
    let p = split_on(line, ';');
    if p.len() == 3 {
        match parsed_usize(p[0]) {
            Some(id) => Some(ConnectionModel { id, uri: p[1], name: p[2] }),
            None => None,
        }
    } else {
        None
    }
}

/// The connections that the first `n` of `lines` give, in order; a line that
/// gives none is passed over.
pub open spec fn parsed_lines(lines: Seq<Seq<char>>, n: nat) -> Seq<ConnectionModel>
    decreases n,
{
    if n == 0 || n > lines.len() {
        Seq::empty()
    } else {
        let before = parsed_lines(lines, (n - 1) as nat);
        match parsed_line(lines[n - 1]) {
            Some(c) => before.push(c),
            None => before,
        }
    }
}

/// The connection that a stored line gives.
pub fn parse_connection_line(line: &str) -> (r: Option<Connection>)
    ensures
        r.deep_view() == parsed_line(line@),
{
    let parts = split(line, ';');
    proof {
        assert(texts(parts@).len() == parts.len());
    }
    if parts.len() == 3 {
        proof {
            assert(texts(parts@)[0] == parts@[0]@);
            assert(texts(parts@)[1] == parts@[1]@);
            assert(texts(parts@)[2] == parts@[2]@);
        }
        match parse_usize(parts[0].as_str()) {
            Some(id) => Some(Connection { id, uri: parts[1].clone(), name: parts[2].clone() }),
            None => None,
        }
    } else {
        None
    }
}

/// The connections kept in `lines`; malformed lines are passed over.
pub fn load_connections(lines: &Vec<String>) -> (conns: Vec<Connection>)
    ensures
        conns.deep_view() == parsed_lines(texts(lines@), lines.len() as nat),
{
    let mut conns: Vec<Connection> = Vec::new();
    let mut i: usize = 0;
    proof {
        assert(conns.deep_view() =~= parsed_lines(texts(lines@), 0));
    }
    while i < lines.len()
        invariant
            0 <= i <= lines.len(),
            conns.deep_view() == parsed_lines(texts(lines@), i as nat),
        decreases lines.len() - i,
    {
        let ghost before = conns.deep_view();
        proof {
            assert(texts(lines@)[i as int] == lines@[i as int]@);
        }
        match parse_connection_line(lines[i].as_str()) {
            Some(c) => {
                let ghost added = c.deep_view();
                conns.push(c);
                proof {
                    assert(conns.deep_view() =~= before.push(added));
                }
            },
            None => {},
        }
        i += 1;
    }
    conns
}

/// The identifier that a stored line begins with, where it begins with one.
pub open spec fn line_id(line: Seq<char>) -> Option<usize> {
    parsed_usize(trimmed(split_on(line, ';')[0]))
}

/// The greatest identifier that the first `n` of `lines` begin with, 0 where
/// none begins with one.
pub open spec fn greatest_id(lines: Seq<Seq<char>>, n: nat) -> usize
    decreases n,
{
    if n == 0 || n > lines.len() {
        0
    } else {
        let before = greatest_id(lines, (n - 1) as nat);
        match line_id(lines[n - 1]) {
            Some(id) => if id > before {
                id
            } else {
                before
            },
            None => before,
        }
    }
}

/// The identifier given to the next connection stored: one more than the
/// greatest in use, and the greatest `usize` where that is in use.
pub open spec fn next_id(lines: Seq<Seq<char>>) -> usize {
    let g = greatest_id(lines, lines.len());
    if g < usize::MAX {
        (g + 1) as usize
    } else {
        g
    }
}

/// The line to append to `lines` for a new connection: the next identifier,
/// the address and the name.
pub fn save_connection(lines: &Vec<String>, uri: &str, name: &str) -> (line: String)
    ensures
        line@ == connection_line_of(
            ConnectionModel { id: next_id(texts(lines@)), uri: uri@, name: name@ },
        ),
{
    let mut max_id: usize = 0;
    let mut i: usize = 0;
    while i < lines.len()
        invariant
            0 <= i <= lines.len(),
            max_id == greatest_id(texts(lines@), i as nat),
        decreases lines.len() - i,
    {
        proof {
            assert(texts(lines@)[i as int] == lines@[i as int]@);
        }
        let parts = split(lines[i].as_str(), ';');
        proof {
            assert(texts(parts@).len() == parts.len());
            lemma_split_has_a_piece(lines@[i as int]@, ';');
            assert(texts(parts@)[0] == parts@[0]@);
        }
        match parse_usize(trim(parts[0].as_str())) {
            Some(id) => {
                if id > max_id {
                    max_id = id;
                }
            },
            None => {},
        }
        i += 1;
    }
    let id = if max_id < usize::MAX {
        max_id + 1
    } else {
        max_id
    };
    connection_line(&Connection { id, uri: uri.to_owned(), name: name.to_owned() })
}

/// A text cut at a separator has at least one piece.
pub proof fn lemma_split_has_a_piece(s: Seq<char>, sep: char)
    ensures
        split_on(s, sep).len() >= 1,
{
}

} // verus!
