//! The line protocol of the Kademlia console: a line read from standard input
//! is split on single spaces, its first word names the command and the
//! following words are its arguments.
use vstd::prelude::*;
use vstd::string::StringSliceAdditionalSpecFns;

verus! {

/// The byte that separates the words of a command line.
pub const SPACE: u8 = 32;

/// The words of `s`, split on every single space, as `str::split(' ')` splits:
/// two adjacent spaces give an empty word, and there is always at least one word.
pub open spec fn split_on_space(s: Seq<u8>) -> Seq<Seq<u8>>
    decreases s.len(),
{
    if s.len() == 0 {
        seq![Seq::<u8>::empty()]
    } else {
        let before = split_on_space(s.drop_last());
        if s.last() == SPACE {
            before.push(Seq::<u8>::empty())
        } else {
            before.update(before.len() - 1, before.last().push(s.last()))
        }
    }
}

/// The words of a line joined back with single spaces.
pub open spec fn join_with_space(words: Seq<Seq<u8>>) -> Seq<u8>
    decreases words.len(),
{
    if words.len() <= 1 {
        if words.len() == 0 { Seq::<u8>::empty() } else { words[0] }
    } else {
        join_with_space(words.drop_last()) + seq![SPACE] + words.last()
    }
}

/// A byte string without any space in it.
pub open spec fn no_space(s: Seq<u8>) -> bool {
    forall|i: int| 0 <= i < s.len() ==> s[i] != SPACE
}

/// "LIST_PEERS"
pub open spec fn list_peers_word() -> Seq<u8> {
    seq![
        'L' as u8, 'I' as u8, 'S' as u8, 'T' as u8, '_' as u8,
        'P' as u8, 'E' as u8, 'E' as u8, 'R' as u8, 'S' as u8,
    ]
}

/// "GET"
pub open spec fn get_word() -> Seq<u8> {
    seq!['G' as u8, 'E' as u8, 'T' as u8]
}

/// "GET_PROVIDERS"
pub open spec fn get_providers_word() -> Seq<u8> {
    seq![
        'G' as u8, 'E' as u8, 'T' as u8, '_' as u8, 'P' as u8, 'R' as u8, 'O' as u8,
        'V' as u8, 'I' as u8, 'D' as u8, 'E' as u8, 'R' as u8, 'S' as u8,
    ]
}

/// "PUT"
pub open spec fn put_word() -> Seq<u8> {
    seq!['P' as u8, 'U' as u8, 'T' as u8]
}

/// "PUT_PROVIDER"
pub open spec fn put_provider_word() -> Seq<u8> {
    seq![
        'P' as u8, 'U' as u8, 'T' as u8, '_' as u8, 'P' as u8, 'R' as u8,
        'O' as u8, 'V' as u8, 'I' as u8, 'D' as u8, 'E' as u8, 'R' as u8,
    ]
}

/// A request typed on the console, to be carried out on the Kademlia behaviour.
#[derive(Debug, Clone, PartialEq, Eq)]
pub enum Command {
    /// Print the peers of the routing table.
    ListPeers,
    /// Look up the record stored under `key`.
    Get { key: Vec<u8> },
    /// Look up the providers of `key`.
    GetProviders { key: Vec<u8> },
    /// Store `value` under `key`.
    Put { key: Vec<u8>, value: Vec<u8> },
    /// Announce this node as a provider of `key`.
    PutProvider { key: Vec<u8> },
}

/// What a [`Command`] means, with its keys and values as byte sequences.
pub enum CommandModel {
    ListPeers,
    Get { key: Seq<u8> },
    GetProviders { key: Seq<u8> },
    Put { key: Seq<u8>, value: Seq<u8> },
    PutProvider { key: Seq<u8> },
}

impl View for Command {
    type V = CommandModel;

    open spec fn view(&self) -> CommandModel {
        match self {
            Command::ListPeers => CommandModel::ListPeers,
            Command::Get { key } => CommandModel::Get { key: key@ },
            Command::GetProviders { key } => CommandModel::GetProviders { key: key@ },
            Command::Put { key, value } => CommandModel::Put { key: key@, value: value@ },
            Command::PutProvider { key } => CommandModel::PutProvider { key: key@ },
        }
    }
}

/// Why a console line is not a command.
#[derive(Debug, Clone, Copy, PartialEq, Eq, Structural)]
pub enum CommandError {
    /// The command needs a key and the line ends after its name.
    ExpectedKey,
    /// `PUT` needs a value and the line ends after the key.
    ExpectedValue,
    /// The first word is none of the known command names.
    UnknownCommand,
}

impl CommandError {
    /// The message printed on standard error for this refusal.
    pub fn message(&self) -> (r: &'static str)
        ensures
            r@ == match self {
                CommandError::ExpectedKey => "Expected key"@,
                CommandError::ExpectedValue => "Expected value"@,
                CommandError::UnknownCommand => "expected GET, GET_PROVIDERS, PUT or PUT_PROVIDER"@,
            },
    {
        match self {
            CommandError::ExpectedKey => "Expected key",
            CommandError::ExpectedValue => "Expected value",
            CommandError::UnknownCommand => "expected GET, GET_PROVIDERS, PUT or PUT_PROVIDER",
        }
    }
}

/// The meaning of a console line: its first word selects the command, the
/// second is the key and the third the value; further words are ignored.
pub open spec fn parse_line(line: Seq<u8>) -> Result<CommandModel, CommandError> {
    let words = split_on_space(line);
    let name = words[0];
    if name == list_peers_word() {
        Ok(CommandModel::ListPeers)
    } else if name == get_word() {
        if words.len() < 2 { Err(CommandError::ExpectedKey) } else { Ok(CommandModel::Get { key: words[1] }) }
    } else if name == get_providers_word() {
        if words.len() < 2 {
            Err(CommandError::ExpectedKey)
        } else {
            Ok(CommandModel::GetProviders { key: words[1] })
        }
    } else if name == put_word() {
        if words.len() < 2 {
            Err(CommandError::ExpectedKey)
        } else if words.len() < 3 {
            Err(CommandError::ExpectedValue)
        } else {
            Ok(CommandModel::Put { key: words[1], value: words[2] })
        }
    } else if name == put_provider_word() {
        if words.len() < 2 {
            Err(CommandError::ExpectedKey)
        } else {
            Ok(CommandModel::PutProvider { key: words[1] })
        }
    } else {
        Err(CommandError::UnknownCommand)
    }
}

/// The view of a parse result.
pub open spec fn parsed_view(r: Result<Command, CommandError>) -> Result<CommandModel, CommandError> {
    match r {
        Ok(c) => Ok(c@),
        Err(e) => Err(e),
    }
}

/// The line that writes a command in the console's syntax.
pub open spec fn command_line(c: CommandModel) -> Seq<u8> {
    match c {
        CommandModel::ListPeers => list_peers_word(),
        CommandModel::Get { key } => join_with_space(seq![get_word(), key]),
        CommandModel::GetProviders { key } => join_with_space(seq![get_providers_word(), key]),
        CommandModel::Put { key, value } => join_with_space(seq![put_word(), key, value]),
        CommandModel::PutProvider { key } => join_with_space(seq![put_provider_word(), key]),
    }
}

/// The keys and values of a command contain no space.
pub open spec fn arguments_without_space(c: CommandModel) -> bool {
    match c {
        CommandModel::ListPeers => true,
        CommandModel::Get { key } => no_space(key),
        CommandModel::GetProviders { key } => no_space(key),
        CommandModel::Put { key, value } => no_space(key) && no_space(value),
        CommandModel::PutProvider { key } => no_space(key),
    }
}

pub proof fn lemma_split_nonempty(s: Seq<u8>)
    ensures
        split_on_space(s).len() >= 1,
    decreases s.len(),
{
    if s.len() > 0 {
        lemma_split_nonempty(s.drop_last());
    }
}

/// Splitting a line at one of its spaces: the words of `a`, then those of `b`.
pub proof fn lemma_split_at_space(a: Seq<u8>, b: Seq<u8>)
    ensures
        split_on_space(a + seq![SPACE] + b) == split_on_space(a) + split_on_space(b),
    decreases b.len(),
{
    let s = a + seq![SPACE] + b;
    lemma_split_nonempty(a);
    if b.len() == 0 {
        assert(s.drop_last() =~= a);
        assert(split_on_space(b) =~= seq![Seq::<u8>::empty()]);
        assert(split_on_space(s) =~= split_on_space(a) + split_on_space(b));
    } else {
        let b0 = b.drop_last();
        assert(s.drop_last() =~= a + seq![SPACE] + b0);
        lemma_split_at_space(a, b0);
        lemma_split_nonempty(b0);
        assert(b0 =~= b.drop_last());
        assert(s.last() == b.last());
        let left = split_on_space(a);
        let right = split_on_space(b0);
        if b.last() == SPACE {
            assert(split_on_space(s) =~= left + right.push(Seq::<u8>::empty()));
        } else {
            assert((left + right).last() == right.last());
            assert(split_on_space(s) =~= left + right.update(
                right.len() - 1,
                right.last().push(b.last()),
            ));
        }
    }
}

/// A byte string without spaces is a single word.
pub proof fn lemma_split_no_space(s: Seq<u8>)
    requires
        no_space(s),
    ensures
        split_on_space(s) == seq![s],
    decreases s.len(),
{
    if s.len() > 0 {
        let s0 = s.drop_last();
        assert(no_space(s0));
        lemma_split_no_space(s0);
        assert(s0.push(s.last()) =~= s);
    } else {
        assert(s =~= Seq::<u8>::empty());
    }
}

/// Splitting the join of words that contain no space gives the words back.
pub proof fn lemma_split_join(words: Seq<Seq<u8>>)
    requires
        words.len() >= 1,
        forall|i: int| 0 <= i < words.len() ==> no_space(#[trigger] words[i]),
    ensures
        split_on_space(join_with_space(words)) == words,
    decreases words.len(),
{
    if words.len() == 1 {
        lemma_split_no_space(words[0]);
        assert(seq![words[0]] =~= words);
    } else {
        let init = words.drop_last();
        assert forall|i: int| 0 <= i < init.len() implies no_space(#[trigger] init[i]) by {
            assert(init[i] == words[i]);
        }
        lemma_split_join(init);
        lemma_split_at_space(join_with_space(init), words.last());
        assert(no_space(words[words.len() - 1]));
        lemma_split_no_space(words.last());
        assert(init + seq![words.last()] =~= words);
    }
}

/// Appending a byte other than a space to the last word appends it to the join.
proof fn lemma_join_extend_last(words: Seq<Seq<u8>>, c: u8)
    requires
        words.len() >= 1,
    ensures
        join_with_space(words.update(words.len() - 1, words.last().push(c))) == join_with_space(
            words,
        ).push(c),
{
    let w2 = words.update(words.len() - 1, words.last().push(c));
    if words.len() >= 2 {
        assert(w2.drop_last() =~= words.drop_last());
        assert(join_with_space(w2) =~= join_with_space(words).push(c));
    }
}

/// Law: splitting a line on its spaces loses nothing: joining the words back
/// with single spaces gives the line.
pub proof fn lemma_join_split(s: Seq<u8>)
    ensures
        join_with_space(split_on_space(s)) == s,
    decreases s.len(),
{
    if s.len() == 0 {
        assert(join_with_space(split_on_space(s)) =~= s);
    } else {
        let s0 = s.drop_last();
        lemma_join_split(s0);
        lemma_split_nonempty(s0);
        let t = split_on_space(s0);
        assert(s0.push(s.last()) =~= s);
        if s.last() == SPACE {
            let t2 = t.push(Seq::<u8>::empty());
            assert(t2.drop_last() =~= t);
            assert(join_with_space(t2) =~= s);
        } else {
            lemma_join_extend_last(t, s.last());
        }
    }
}

/// Law: no word of a split line holds a space.
pub proof fn lemma_split_words_have_no_space(s: Seq<u8>)
    ensures
        forall|i: int|
            0 <= i < split_on_space(s).len() ==> no_space(#[trigger] split_on_space(s)[i]),
    decreases s.len(),
{
    if s.len() > 0 {
        let s0 = s.drop_last();
        lemma_split_words_have_no_space(s0);
        lemma_split_nonempty(s0);
        let t = split_on_space(s0);
        if s.last() != SPACE {
            let last = t.last().push(s.last());
            assert(no_space(t[t.len() - 1]));
            assert(no_space(last));
            assert forall|i: int| 0 <= i < split_on_space(s).len() implies no_space(
                #[trigger] split_on_space(s)[i],
            ) by {
                if i < t.len() - 1 {
                    assert(split_on_space(s)[i] == t[i]);
                }
            }
        } else {
            assert forall|i: int| 0 <= i < split_on_space(s).len() implies no_space(
                #[trigger] split_on_space(s)[i],
            ) by {
                if i < t.len() {
                    assert(split_on_space(s)[i] == t[i]);
                }
            }
        }
    }
}

/// Law: the key and the value of a command read from a line never hold a
/// space, so the command can always be written back in the console's syntax.
pub proof fn lemma_parsed_arguments_without_space(line: Seq<u8>)
    requires
        parse_line(line) is Ok,
    ensures
        arguments_without_space(parse_line(line)->Ok_0),
        parse_line(command_line(parse_line(line)->Ok_0)) == parse_line(line),
{
    lemma_split_words_have_no_space(line);
    lemma_split_nonempty(line);
    let w = split_on_space(line);
    assert(no_space(w[0]));
    if w.len() >= 2 {
        assert(no_space(w[1]));
    }
    if w.len() >= 3 {
        assert(no_space(w[2]));
    }
    lemma_parse_command_line(parse_line(line)->Ok_0);
}

/// Law: a command written in the console's syntax, with keys and values free
/// of spaces, is read back as that command.
pub proof fn lemma_parse_command_line(c: CommandModel)
    requires
        arguments_without_space(c),
    ensures
        parse_line(command_line(c)) == Ok::<CommandModel, CommandError>(c),
{
    let lp = list_peers_word();
    let g = get_word();
    let gp = get_providers_word();
    let p = put_word();
    let pp = put_provider_word();
    assert(no_space(lp));
    assert(no_space(g));
    assert(no_space(gp));
    assert(no_space(p));
    assert(no_space(pp));
    // the names differ from each other (by length or by a letter)
    assert(g != p) by { assert(g[0] != p[0]); }
    assert(gp != pp) by { assert(gp[0] != pp[0]); }
    match c {
        CommandModel::ListPeers => {
            lemma_split_no_space(lp);
        },
        CommandModel::Get { key } => {
            let w = seq![g, key];
            assert forall|i: int| 0 <= i < w.len() implies no_space(#[trigger] w[i]) by {}
            lemma_split_join(w);
        },
        CommandModel::GetProviders { key } => {
            let w = seq![gp, key];
            assert forall|i: int| 0 <= i < w.len() implies no_space(#[trigger] w[i]) by {}
            lemma_split_join(w);
        },
        CommandModel::Put { key, value } => {
            let w = seq![p, key, value];
            assert forall|i: int| 0 <= i < w.len() implies no_space(#[trigger] w[i]) by {}
            lemma_split_join(w);
        },
        CommandModel::PutProvider { key } => {
            let w = seq![pp, key];
            assert forall|i: int| 0 <= i < w.len() implies no_space(#[trigger] w[i]) by {}
            lemma_split_join(w);
        },
    }
}

/// Law: once a line holds a whole command, words appended after a further
/// space are ignored; and a line whose first word names no command stays
/// refused whatever follows.
pub proof fn lemma_parse_ignores_extra_words(line: Seq<u8>, rest: Seq<u8>)
    requires
        parse_line(line) is Ok || parse_line(line) == Err::<CommandModel, CommandError>(
            CommandError::UnknownCommand,
        ),
    ensures
        parse_line(line + seq![SPACE] + rest) == parse_line(line),
{
    lemma_split_at_space(line, rest);
    lemma_split_nonempty(line);
    lemma_split_nonempty(rest);
    let w = split_on_space(line);
    let w2 = split_on_space(line + seq![SPACE] + rest);
    assert(w2[0] == w[0]);
    if w.len() >= 2 {
        assert(w2[1] == w[1]);
    }
    if w.len() >= 3 {
        assert(w2[2] == w[2]);
    }
}

/// The name of a command as it is typed on the console.
pub open spec fn command_name(c: CommandModel) -> Seq<u8> {
    match c {
        CommandModel::ListPeers => "LIST_PEERS".spec_bytes(),
        CommandModel::Get { .. } => "GET".spec_bytes(),
        CommandModel::GetProviders { .. } => "GET_PROVIDERS".spec_bytes(),
        CommandModel::Put { .. } => "PUT".spec_bytes(),
        CommandModel::PutProvider { .. } => "PUT_PROVIDER".spec_bytes(),
    }
}

/// Whether `word` is the name of one of the five commands.
pub open spec fn is_command_name(word: Seq<u8>) -> bool {
    ||| word == "LIST_PEERS".spec_bytes()
    ||| word == "GET".spec_bytes()
    ||| word == "GET_PROVIDERS".spec_bytes()
    ||| word == "PUT".spec_bytes()
    ||| word == "PUT_PROVIDER".spec_bytes()
}

/// The bytes of an ASCII string literal are its characters.
proof fn lemma_ascii_literal(s: &str)
    requires
        forall|i: int| 0 <= i < s@.len() ==> '\0' <= #[trigger] s@[i] <= '\u{7f}',
    ensures
        s.spec_bytes().len() == s@.len(),
        forall|i: int| 0 <= i < s@.len() ==> #[trigger] s.spec_bytes()[i] == s@[i] as u8,
{
    vstd::utf8::is_ascii_chars_encode_utf8(s@);
}

/// The command words are the bytes of the names typed on the console.
proof fn lemma_command_words()
    ensures
        list_peers_word() == "LIST_PEERS".spec_bytes(),
        get_word() == "GET".spec_bytes(),
        get_providers_word() == "GET_PROVIDERS".spec_bytes(),
        put_word() == "PUT".spec_bytes(),
        put_provider_word() == "PUT_PROVIDER".spec_bytes(),
{
    reveal_strlit("LIST_PEERS");
    reveal_strlit("GET");
    reveal_strlit("GET_PROVIDERS");
    reveal_strlit("PUT");
    reveal_strlit("PUT_PROVIDER");
    lemma_ascii_literal("LIST_PEERS");
    lemma_ascii_literal("GET");
    lemma_ascii_literal("GET_PROVIDERS");
    lemma_ascii_literal("PUT");
    lemma_ascii_literal("PUT_PROVIDER");
    assert(list_peers_word() =~= "LIST_PEERS".spec_bytes());
    assert(get_word() =~= "GET".spec_bytes());
    assert(get_providers_word() =~= "GET_PROVIDERS".spec_bytes());
    assert(put_word() =~= "PUT".spec_bytes());
    assert(put_provider_word() =~= "PUT_PROVIDER".spec_bytes());
}

/// Law: a line is read as a command only when its first word is that
/// command's name, with the second word as key and the third as value; a line
/// whose first word names no command is refused as unknown; a line that starts
/// with a name and has the words the command needs is always read; a missing
/// key or value is reported only when the line ends right after the name or
/// the key.
pub proof fn lemma_command_read_by_its_name(line: Seq<u8>)
    ensures
        split_on_space(line).len() >= 1,
        parse_line(line) is Ok ==> split_on_space(line)[0] == command_name(parse_line(line)->Ok_0),
        parse_line(line) is Ok ==> match parse_line(line)->Ok_0 {
            CommandModel::ListPeers => true,
            CommandModel::Get { key } => key == split_on_space(line)[1],
            CommandModel::GetProviders { key } => key == split_on_space(line)[1],
            CommandModel::Put { key, value } => key == split_on_space(line)[1] && value
                == split_on_space(line)[2],
            CommandModel::PutProvider { key } => key == split_on_space(line)[1],
        },
        !is_command_name(split_on_space(line)[0]) <==> parse_line(line) == Err::<
            CommandModel,
            CommandError,
        >(CommandError::UnknownCommand),
        parse_line(line) == Err::<CommandModel, CommandError>(CommandError::ExpectedKey) <==> (
        split_on_space(line).len() == 1 && is_command_name(split_on_space(line)[0])
            && split_on_space(line)[0] != "LIST_PEERS".spec_bytes()),
        parse_line(line) == Err::<CommandModel, CommandError>(CommandError::ExpectedValue) <==> (
        split_on_space(line).len() == 2 && split_on_space(line)[0] == "PUT".spec_bytes()),
{
    lemma_split_nonempty(line);
    lemma_command_words();
    let lp = list_peers_word();
    let g = get_word();
    let gp = get_providers_word();
    let p = put_word();
    let pp = put_provider_word();
    // the five names differ from each other
    assert(lp != g && lp != gp && lp != p && lp != pp) by {
        assert(lp.len() != g.len() && lp.len() != gp.len() && lp.len() != p.len());
        assert(lp.len() != pp.len());
    }
    assert(g != gp && g != p && g != pp) by {
        assert(g.len() != gp.len() && g.len() != pp.len());
        assert(g[0] != p[0]);
    }
    assert(gp != p && gp != pp) by {
        assert(gp.len() != p.len() && gp.len() != pp.len());
    }
    assert(p != pp) by {
        assert(p.len() != pp.len());
    }
}

/// The words of `line`, split on every single space.
pub fn split_words(line: &[u8]) -> (words: Vec<Vec<u8>>)
    ensures
        words@.map_values(|w: Vec<u8>| w@) == split_on_space(line@),
{
    let mut done: Vec<Vec<u8>> = Vec::new();
    let mut current: Vec<u8> = Vec::new();
    let n = line.len();
    let mut i: usize = 0;
    assert(line@.take(0) =~= Seq::<u8>::empty());
    assert(done@.map_values(|w: Vec<u8>| w@).push(current@) =~= seq![Seq::<u8>::empty()]);
    while i < n
        invariant
            n == line@.len(),
            i <= n,
            split_on_space(line@.take(i as int)) == done@.map_values(|w: Vec<u8>| w@).push(
                current@,
            ),
        decreases n - i,
    {
        let b = line[i];
        let ghost before = done@.map_values(|w: Vec<u8>| w@);
        let ghost cur = current@;
        assert(line@.take(i + 1).drop_last() =~= line@.take(i as int));
        assert(line@.take(i + 1).last() == b);
        if b == SPACE {
            let finished = current;
            done.push(finished);
            current = Vec::new();
            assert(done@.map_values(|w: Vec<u8>| w@) =~= before.push(cur));
            assert(done@.map_values(|w: Vec<u8>| w@).push(current@) =~= before.push(cur).push(
                Seq::<u8>::empty(),
            ));
        } else {
            current.push(b);
            assert(before.push(cur).update(before.len() as int, cur.push(b)) =~= before.push(
                current@,
            ));
        }
        i = i + 1;
    }
    assert(line@.take(n as int) =~= line@);
    let ghost before = done@.map_values(|w: Vec<u8>| w@);
    let ghost cur = current@;
    done.push(current);
    assert(done@.map_values(|w: Vec<u8>| w@) =~= before.push(cur));
    done
}

/// Whether two byte strings are equal.
fn same_bytes(a: &[u8], b: &[u8]) -> (r: bool)
    ensures
        r == (a@ == b@),
{
    if a.len() != b.len() {
        return false;
    }
    let n = a.len();
    let mut i: usize = 0;
    while i < n
        invariant
            n == a@.len(),
            n == b@.len(),
            i <= n,
            forall|j: int| 0 <= j < i ==> a@[j] == b@[j],
        decreases n - i,
    {
        if a[i] != b[i] {
            return false;
        }
        i = i + 1;
    }
    assert(a@ =~= b@);
    true
}

fn list_peers_keyword() -> (r: Vec<u8>)
    ensures
        r@ == list_peers_word(),
{
    let r: Vec<u8> = vec![
        'L' as u8, 'I' as u8, 'S' as u8, 'T' as u8, '_' as u8,
        'P' as u8, 'E' as u8, 'E' as u8, 'R' as u8, 'S' as u8,
    ];
    assert(r@ =~= list_peers_word());
    r
}

fn get_keyword() -> (r: Vec<u8>)
    ensures
        r@ == get_word(),
{
    let r: Vec<u8> = vec!['G' as u8, 'E' as u8, 'T' as u8];
    assert(r@ =~= get_word());
    r
}

fn get_providers_keyword() -> (r: Vec<u8>)
    ensures
        r@ == get_providers_word(),
{
    let r: Vec<u8> = vec![
        'G' as u8, 'E' as u8, 'T' as u8, '_' as u8, 'P' as u8, 'R' as u8, 'O' as u8,
        'V' as u8, 'I' as u8, 'D' as u8, 'E' as u8, 'R' as u8, 'S' as u8,
    ];
    assert(r@ =~= get_providers_word());
    r
}

fn put_keyword() -> (r: Vec<u8>)
    ensures
        r@ == put_word(),
{
    let r: Vec<u8> = vec!['P' as u8, 'U' as u8, 'T' as u8];
    assert(r@ =~= put_word());
    r
}

fn put_provider_keyword() -> (r: Vec<u8>)
    ensures
        r@ == put_provider_word(),
{
    let r: Vec<u8> = vec![
        'P' as u8, 'U' as u8, 'T' as u8, '_' as u8, 'P' as u8, 'R' as u8,
        'O' as u8, 'V' as u8, 'I' as u8, 'D' as u8, 'E' as u8, 'R' as u8,
    ];
    assert(r@ =~= put_provider_word());
    r
}

/// A copy of the word at `index`.
fn word_at(words: &Vec<Vec<u8>>, index: usize) -> (r: Vec<u8>)
    requires
        index < words@.len(),
    ensures
        r@ == words@[index as int]@,
{
    let w = &words[index];
    let mut r: Vec<u8> = Vec::new();
    let n = w.len();
    let mut i: usize = 0;
    while i < n
        invariant
            n == w@.len(),
            i <= n,
            r@ == w@.take(i as int),
        decreases n - i,
    {
        r.push(w[i]);
        i = i + 1;
        assert(r@ =~= w@.take(i as int));
    }
    assert(w@.take(n as int) =~= w@);
    r
}

/// Reads a console line as a command: its first word, split off at the first
/// space, names the command; the next words are its key and value.
pub fn parse_command(line: &str) -> (r: Result<Command, CommandError>)
    ensures
        parsed_view(r) == parse_line(line.spec_bytes()),
{
    let bytes: &[u8] = line.as_bytes();
    let words = split_words(bytes);
    let ghost ws = split_on_space(line.spec_bytes());
    proof {
        lemma_split_nonempty(line.spec_bytes());
        assert(words@.len() == ws.len());
        assert forall|i: int| 0 <= i < words@.len() implies #[trigger] words@[i]@ == ws[i] by {
            assert(words@.map_values(|w: Vec<u8>| w@)[i] == words@[i]@);
        }
    }
    let count = words.len();
    let name: &[u8] = words[0].as_slice();
    let lp = list_peers_keyword();
    let g = get_keyword();
    let gp = get_providers_keyword();
    let p = put_keyword();
    let pp = put_provider_keyword();
    if same_bytes(name, lp.as_slice()) {
        Ok(Command::ListPeers)
    } else if same_bytes(name, g.as_slice()) {
        if count < 2 {
            Err(CommandError::ExpectedKey)
        } else {
            Ok(Command::Get { key: word_at(&words, 1) })
        }
    } else if same_bytes(name, gp.as_slice()) {
        if count < 2 {
            Err(CommandError::ExpectedKey)
        } else {
            Ok(Command::GetProviders { key: word_at(&words, 1) })
        }
    } else if same_bytes(name, p.as_slice()) {
        if count < 2 {
            Err(CommandError::ExpectedKey)
        } else if count < 3 {
            Err(CommandError::ExpectedValue)
        } else {
            let key = word_at(&words, 1);
            let value = word_at(&words, 2);
            Ok(Command::Put { key, value })
        }
    } else if same_bytes(name, pp.as_slice()) {
        if count < 2 {
            Err(CommandError::ExpectedKey)
        } else {
            Ok(Command::PutProvider { key: word_at(&words, 1) })
        }
    } else {
        Err(CommandError::UnknownCommand)
    }
}

} // verus!
