//! The parts of a message, in the order they were typed.

use vstd::prelude::*;

use crate::cli::args::MessageCommand;
use crate::cli::error;
use crate::cli::error::{CliError, CliErrorView};
use crate::json;
use crate::json::JsonView;
use crate::order;
use crate::order::Ranked;
use crate::protocol;
use crate::protocol::{Part, PartContentView, PartView};
use crate::text;

verus! {

/// What a part flag says.
#[derive(Debug, PartialEq, Eq)]
pub enum Token {
    Text(String),
    File(String),
    Data(String),
    /// The media type of the part before it.
    MediaType(String),
}

/// What a [`Token`] stands for.
#[verifier::ext_equal]
pub enum TokenView {
    Text(Seq<char>),
    File(Seq<char>),
    Data(Seq<char>),
    MediaType(Seq<char>),
}

impl DeepView for Token {
    type V = TokenView;

    open spec fn deep_view(&self) -> TokenView {
        match self {
            Token::Text(value) => TokenView::Text(value@),
            Token::File(value) => TokenView::File(value@),
            Token::Data(value) => TokenView::Data(value@),
            Token::MediaType(value) => TokenView::MediaType(value@),
        }
    }
}

/// The flags that make tokens.
#[derive(Debug, Clone, Copy, PartialEq, Eq, Structural)]
pub enum Flag {
    Text,
    File,
    Data,
    MediaType,
}

/// What `value` says behind `flag`.
pub open spec fn token(flag: Flag, value: Seq<char>) -> TokenView {
    match flag {
        Flag::Text => TokenView::Text(value),
        Flag::File => TokenView::File(value),
        Flag::Data => TokenView::Data(value),
        Flag::MediaType => TokenView::MediaType(value),
    }
}

/// A token with its place on the command line.
pub struct Placed {
    pub index: usize,
    pub token: Token,
}

impl DeepView for Placed {
    type V = (usize, TokenView);

    open spec fn deep_view(&self) -> (usize, TokenView) {
        (self.index, self.token.deep_view())
    }
}

impl Ranked for Placed {
    open spec fn ranks(a: (usize, TokenView), b: (usize, TokenView)) -> bool {
        a.0 <= b.0
    }

    proof fn ranks_total(a: (usize, TokenView), b: (usize, TokenView)) {
    }

    proof fn ranks_transitive(
        a: (usize, TokenView),
        b: (usize, TokenView),
        c: (usize, TokenView),
    ) {
    }

    fn may_precede(&self, other: &Self) -> (r: bool) {
        self.index <= other.index
    }
}

/// Where the values of each part flag stand on the command line.
#[derive(Debug, PartialEq, Eq)]
pub struct PartIndices {
    pub text_parts: Vec<usize>,
    pub file_parts: Vec<usize>,
    pub data_parts: Vec<usize>,
    pub media_types: Vec<usize>,
}

/// The values of one flag with their places.
pub open spec fn placed(flag: Flag, indices: Seq<usize>, values: Seq<Seq<char>>) -> Seq<
    (usize, TokenView),
> {
    Seq::new(
        if indices.len() < values.len() {
            indices.len()
        } else {
            values.len()
        },
        |i: int| (indices[i], token(flag, values[i])),
    )
}

fn add_placed(out: &mut Vec<Placed>, flag: Flag, indices: &Vec<usize>, values: &Vec<String>)
    ensures
        final(out).deep_view() == old(out).deep_view() + placed(
            flag,
            indices@,
            values.deep_view(),
        ),
{
    let ghost start = out.deep_view();
    let ghost all = placed(flag, indices@, values.deep_view());
    let mut i: usize = 0;
    assert(start + all.take(0) =~= start);
    while i < indices.len() && i < values.len()
        invariant
            i <= indices@.len(),
            i <= values@.len(),
            all == placed(flag, indices@, values.deep_view()),
            out.deep_view() == start + all.take(i as int),
        decreases indices@.len() - i,
    {
        let value = values[i].clone();
        let token = match flag {
            Flag::Text => Token::Text(value),
            Flag::File => Token::File(value),
            Flag::Data => Token::Data(value),
            Flag::MediaType => Token::MediaType(value),
        };
        let ghost before = out.deep_view();
        let ghost view = (indices@[i as int], token.deep_view());
        out.push(Placed { index: indices[i], token });
        proof {
            assert(values.deep_view()[i as int] == values@[i as int]@);
            assert(view == all[i as int]);
            assert(out.deep_view() =~= before.push(view));
            assert(start + all.take(i + 1) =~= (start + all.take(i as int)).push(all[i as int]));
        }
        i += 1;
    }
    assert(all.take(i as int) =~= all);
}

/// The parts that the command asks for, where each stands.
pub open spec fn part_tokens(indices: PartIndices, command: MessageCommand) -> Seq<
    (usize, TokenView),
> {
    placed(Flag::Text, indices.text_parts@, command.text_parts.deep_view()) + placed(
        Flag::File,
        indices.file_parts@,
        command.file_parts.deep_view(),
    ) + placed(Flag::Data, indices.data_parts@, command.data_parts.deep_view())
}

/// The error of a media type that follows no part.
pub open spec fn stray_media_type() -> CliErrorView {
    CliErrorView::InvalidInput(
        "--media-type must immediately follow a --text-part/--file-part/--data-part"@,
    )
}

fn make_stray_media_type() -> (r: CliError)
    ensures
        r.deep_view() == stray_media_type(),
{
    error::invalid_input(
        "--media-type must immediately follow a --text-part/--file-part/--data-part",
    )
}

/// What the command says, flag by flag, in the order it was typed. Text on
/// its own is shorthand for one text part; a message needs at least one part.
pub open spec fn typed_tokens(indices: PartIndices, command: MessageCommand) -> Result<
    Seq<TokenView>,
    CliErrorView,
> {
    let parts = part_tokens(indices, command);
    if parts.len() == 0 {
        if command.media_types@.len() > 0 {
            Err(stray_media_type())
        } else {
            match command.text {
                Some(text) => Ok(seq![TokenView::Text(text@)]),
                None => Err(
                    CliErrorView::InvalidInput(
                        "message must have at least one part: pass text, or use --text-part/--file-part/--data-part"@,
                    ),
                ),
            }
        }
    } else if command.text is Some {
        Err(
            CliErrorView::InvalidInput(
                "the positional message text cannot be combined with --text-part/--file-part/--data-part; pass it as --text-part instead"@,
            ),
        )
    } else {
        let all = parts + placed(
            Flag::MediaType,
            indices.media_types@,
            command.media_types.deep_view(),
        );
        Ok(order::sorted::<Placed>(all).map_values(|p: (usize, TokenView)| p.1))
    }
}

/// What fallible tokens stand for.
pub open spec fn tokens_view(tokens: Result<Vec<Token>, CliError>) -> Result<
    Seq<TokenView>,
    CliErrorView,
> {
    match tokens {
        Ok(tokens) => Ok(tokens.deep_view()),
        Err(error) => Err(error.deep_view()),
    }
}

fn without_places(items: Vec<Placed>) -> (r: Vec<Token>)
    ensures
        r.deep_view() == items.deep_view().map_values(|p: (usize, TokenView)| p.1),
{
    let ghost goal = items.deep_view().map_values(|p: (usize, TokenView)| p.1);
    let mut rest = items;
    let mut out: Vec<Token> = Vec::new();
    let ghost mut done: int = 0;
    assert(rest.deep_view().map_values(|p: (usize, TokenView)| p.1) =~= goal.skip(0));
    while rest.len() > 0
        invariant
            0 <= done <= goal.len(),
            rest@.len() == goal.len() - done,
            rest.deep_view().map_values(|p: (usize, TokenView)| p.1) == goal.skip(done),
            out.deep_view() == goal.take(done),
        decreases rest@.len(),
    {
        let ghost held = rest@;
        let ghost before = rest.deep_view().map_values(|p: (usize, TokenView)| p.1);
        let item = rest.remove(0);
        let ghost earlier = out.deep_view();
        proof {
            assert(before[0] == held[0].token.deep_view());
            assert(before[0] == goal[done]);
            let after = rest.deep_view().map_values(|p: (usize, TokenView)| p.1);
            assert forall|k: int| 0 <= k < after.len() implies after[k] == goal.skip(
                done + 1,
            )[k] by {
                assert(rest@[k] == held[k + 1]);
                assert(before[k + 1] == held[k + 1].token.deep_view());
                assert(before[k + 1] == goal.skip(done)[k + 1]);
            }
            assert(after =~= goal.skip(done + 1));
        }
        out.push(item.token);
        proof {
            assert(out.deep_view() =~= earlier.push(goal[done]));
            assert(goal.take(done + 1) =~= goal.take(done).push(goal[done]));
            done = done + 1;
        }
    }
    assert(goal.take(done) =~= goal);
    out
}

/// Puts what the command says in the order it was typed.
pub fn order_tokens(indices: &PartIndices, command: &MessageCommand) -> (r: Result<
    Vec<Token>,
    CliError,
>)
    ensures
        tokens_view(r) == typed_tokens(*indices, *command),
{
    let mut items: Vec<Placed> = Vec::new();
    let ghost none = items.deep_view();
    assert(none =~= Seq::<(usize, TokenView)>::empty());
    add_placed(&mut items, Flag::Text, &indices.text_parts, &command.text_parts);
    add_placed(&mut items, Flag::File, &indices.file_parts, &command.file_parts);
    add_placed(&mut items, Flag::Data, &indices.data_parts, &command.data_parts);
    assert(items.deep_view() =~= part_tokens(*indices, *command));
    assert(items@.len() == items.deep_view().len());
    if items.len() == 0 {
        if command.media_types.len() > 0 {
            return Err(make_stray_media_type());
        }
        return match &command.text {
            Some(text) => {
                let mut tokens: Vec<Token> = Vec::new();
                tokens.push(Token::Text(text.clone()));
                assert(tokens.deep_view() =~= seq![TokenView::Text(text@)]);
                Ok(tokens)
            },
            None => Err(
                error::invalid_input(
                    "message must have at least one part: pass text, or use --text-part/--file-part/--data-part",
                ),
            ),
        };
    }
    if command.text.is_some() {
        return Err(
            error::invalid_input(
                "the positional message text cannot be combined with --text-part/--file-part/--data-part; pass it as --text-part instead",
            ),
        );
    }
    add_placed(&mut items, Flag::MediaType, &indices.media_types, &command.media_types);
    let sorted = order::sort(items);
    Ok(without_places(sorted))
}

/// Why a file could not be read.
#[derive(Debug, Clone, Copy, PartialEq, Eq, Structural)]
pub enum ReadErrorKind {
    NotFound,
    /// The name is not one that a file can have.
    InvalidFilename,
    InvalidInput,
    /// The file is there, but cannot be read.
    Other,
}

/// Whether a failed read means that the text names no file at all, so that it
/// may be JSON itself.
pub fn means_not_a_readable_path(kind: ReadErrorKind) -> (r: bool)
    ensures
        r == (kind != ReadErrorKind::Other),
{
    match kind {
        ReadErrorKind::NotFound | ReadErrorKind::InvalidFilename
        | ReadErrorKind::InvalidInput => true,
        ReadErrorKind::Other => false,
    }
}

/// Where the content of a token comes from.
#[derive(Debug, Clone, Copy, PartialEq, Eq, Structural)]
pub enum Source {
    /// The token has it all.
    Token,
    /// The bytes of the file that the token names.
    FileBytes,
    /// The text of the file that the token names.
    FileText,
    /// The text on standard input.
    Stdin,
}

/// Where the content of `token` comes from.
pub open spec fn source(token: TokenView) -> Source {
    match token {
        TokenView::File(value) => if text::found(value, "://"@) is Some {
            Source::Token
        } else {
            Source::FileBytes
        },
        TokenView::Data(value) => if value == "-"@ {
            Source::Stdin
        } else {
            Source::FileText
        },
        _ => Source::Token,
    }
}

/// Where the content of `token` comes from.
pub fn source_of(token: &Token) -> (r: Source)
    ensures
        r == source(token.deep_view()),
{
    match token {
        Token::File(value) => if text::contains(value.as_str(), "://") {
            Source::Token
        } else {
            Source::FileBytes
        },
        Token::Data(value) => if text::same(value.as_str(), "-") {
            Source::Stdin
        } else {
            Source::FileText
        },
        _ => Source::Token,
    }
}

/// What was read for a token.
pub enum Loaded {
    /// Nothing had to be read.
    Nothing,
    /// A file, with the last component of its path.
    Bytes { bytes: Vec<u8>, filename: Option<String> },
    /// Text of a file or of standard input.
    Text { text: String },
    /// It could not be read.
    Failed { kind: ReadErrorKind, reason: String },
}

/// What a [`Loaded`] stands for.
#[verifier::ext_equal]
pub enum LoadedView {
    Nothing,
    Bytes { bytes: Seq<u8>, filename: Option<Seq<char>> },
    Text { text: Seq<char> },
    Failed { kind: ReadErrorKind, reason: Seq<char> },
}

impl DeepView for Loaded {
    type V = LoadedView;

    open spec fn deep_view(&self) -> LoadedView {
        match self {
            Loaded::Nothing => LoadedView::Nothing,
            Loaded::Bytes { bytes, filename } => LoadedView::Bytes {
                bytes: bytes.deep_view(),
                filename: filename.deep_view(),
            },
            Loaded::Text { text } => LoadedView::Text { text: text@ },
            Loaded::Failed { kind, reason } => LoadedView::Failed { kind: *kind, reason: reason@ },
        }
    }
}

/// A part, or why there is none.
pub open spec fn part_view(part: Result<Part, CliError>) -> Result<PartView, CliErrorView> {
    match part {
        Ok(part) => Ok(part.deep_view()),
        Err(error) => Err(error.deep_view()),
    }
}

/// The part of a file token: a URL is carried by reference, and a file with
/// its bytes and its name.
pub open spec fn file_part(value: Seq<char>, loaded: LoadedView) -> Result<
    PartView,
    CliErrorView,
> {
    if text::found(value, "://"@) is Some {
        Ok(protocol::bare_part(PartContentView::Url(value)))
    } else {
        match loaded {
            LoadedView::Bytes { bytes, filename } => Ok(
                PartView { filename, ..protocol::bare_part(PartContentView::Raw(bytes)) },
            ),
            LoadedView::Failed { kind, reason } => Err(
                CliErrorView::ReadFile { path: value, reason },
            ),
            _ => Err(CliErrorView::ReadFile { path: value, reason: "not read"@ }),
        }
    }
}

/// Makes the part of a file token.
pub fn build_file_part(value: &str, loaded: Loaded) -> (r: Result<Part, CliError>)
    ensures
        part_view(r) == file_part(value@, loaded.deep_view()),
{
    if text::contains(value, "://") {
        return Ok(Part::url(value));
    }
    match loaded {
        Loaded::Bytes { bytes, filename } => {
            let mut part = Part::raw(bytes);
            part.filename = filename;
            Ok(part)
        },
        Loaded::Failed { kind, reason } => Err(
            CliError::ReadFile { path: value.to_string(), reason },
        ),
        _ => Err(CliError::ReadFile { path: value.to_string(), reason: "not read".to_string() }),
    }
}

/// The part that JSON text makes; `origin` is where the text came from.
pub open spec fn data_from_text(read: Result<JsonView, Seq<char>>, origin: Seq<char>) -> Result<
    PartView,
    CliErrorView,
> {
    match read {
        Ok(document) => Ok(protocol::bare_part(PartContentView::Data(document))),
        Err(reason) => Err(
            CliErrorView::InvalidInput(
                "--data-part: invalid JSON in "@ + origin + ": "@ + reason,
            ),
        ),
    }
}

/// The part that inline JSON makes.
pub open spec fn data_from_value(read: Result<JsonView, Seq<char>>, value: Seq<char>) -> Result<
    PartView,
    CliErrorView,
> {
    match read {
        Ok(document) => Ok(protocol::bare_part(PartContentView::Data(document))),
        Err(reason) => Err(
            CliErrorView::InvalidInput(
                "--data-part must be a file path, \"-\" for stdin, or inline JSON: "@ + value,
            ),
        ),
    }
}

/// The part of a data token: the JSON on standard input for `-`, that of the
/// file it names, or the token itself where it names no file.
pub open spec fn data_part(value: Seq<char>, loaded: LoadedView) -> Result<
    PartView,
    CliErrorView,
> {
    let origin = if value == "-"@ {
        "<stdin>"@
    } else {
        value
    };
    match loaded {
        LoadedView::Text { text } => data_from_text(json::read_json(text), origin),
        LoadedView::Failed { kind, reason } => if value == "-"@ || kind == ReadErrorKind::Other {
            Err(CliErrorView::ReadFile { path: origin, reason })
        } else {
            data_from_value(json::read_json(value), value)
        },
        _ => Err(CliErrorView::ReadFile { path: origin, reason: "not read"@ }),
    }
}

/// Makes the part of JSON text that came from `origin`. A malformed document
/// is the caller's to fix.
pub fn parse_data_part_json(text: &str, origin: &str) -> (r: Result<Part, CliError>)
    ensures
        part_view(r) == data_from_text(json::read_json(text@), origin@),
{
    match json::parse_json(text) {
        Ok(document) => Ok(Part::data(document)),
        Err(reason) => {
            let mut message = "--data-part: invalid JSON in ".to_string();
            message.append(origin);
            message.append(": ");
            message.append(reason.as_str());
            Err(CliError::InvalidInput(message))
        },
    }
}

fn parse_inline_json(value: &str) -> (r: Result<Part, CliError>)
    ensures
        part_view(r) == data_from_value(json::read_json(value@), value@),
{
    match json::parse_json(value) {
        Ok(document) => Ok(Part::data(document)),
        Err(_) => {
            let mut message =
                "--data-part must be a file path, \"-\" for stdin, or inline JSON: ".to_string();
            message.append(value);
            Err(CliError::InvalidInput(message))
        },
    }
}

/// Makes the part of a data token.
pub fn build_data_part(value: &str, loaded: Loaded) -> (r: Result<Part, CliError>)
    ensures
        part_view(r) == data_part(value@, loaded.deep_view()),
{
    let stdin = text::same(value, "-");
    let origin = if stdin {
        "<stdin>"
    } else {
        value
    };
    match loaded {
        Loaded::Text { text } => parse_data_part_json(text.as_str(), origin),
        Loaded::Failed { kind, reason } => if stdin || !means_not_a_readable_path(kind) {
            Err(CliError::ReadFile { path: origin.to_string(), reason })
        } else {
            parse_inline_json(value)
        },
        _ => Err(CliError::ReadFile { path: origin.to_string(), reason: "not read".to_string() }),
    }
}

/// `parts` with the media type of the last one set.
pub open spec fn with_media_type(parts: Seq<PartView>, media_type: Seq<char>) -> Seq<PartView> {
    parts.drop_last().push(PartView { media_type: Some(media_type), ..parts.last() })
}

/// The parts after one more token.
pub open spec fn token_added(
    parts: Seq<PartView>,
    token: TokenView,
    loaded: LoadedView,
) -> Result<Seq<PartView>, CliErrorView> {
    match token {
        TokenView::Text(value) => Ok(
            parts.push(protocol::bare_part(PartContentView::Text(value))),
        ),
        TokenView::File(value) => match file_part(value, loaded) {
            Ok(part) => Ok(parts.push(part)),
            Err(error) => Err(error),
        },
        TokenView::Data(value) => match data_part(value, loaded) {
            Ok(part) => Ok(parts.push(part)),
            Err(error) => Err(error),
        },
        TokenView::MediaType(value) => if parts.len() > 0 {
            Ok(with_media_type(parts, value))
        } else {
            Err(stray_media_type())
        },
    }
}

/// The parts that the first `n` tokens make.
pub open spec fn assembled(tokens: Seq<TokenView>, loaded: Seq<LoadedView>, n: int) -> Result<
    Seq<PartView>,
    CliErrorView,
>
    decreases n,
{
    if n <= 0 {
        Ok(Seq::empty())
    } else {
        match assembled(tokens, loaded, n - 1) {
            Ok(parts) => token_added(parts, tokens[n - 1], loaded[n - 1]),
            Err(error) => Err(error),
        }
    }
}

fn add_token(parts: &mut Vec<Part>, token: &Token, loaded: Loaded) -> (r: Result<(), CliError>)
    ensures
        match r {
            Ok(_) => token_added(
                old(parts).deep_view(),
                token.deep_view(),
                loaded.deep_view(),
            ) == Ok::<Seq<PartView>, CliErrorView>(final(parts).deep_view()),
            Err(error) => token_added(
                old(parts).deep_view(),
                token.deep_view(),
                loaded.deep_view(),
            ) == Err::<Seq<PartView>, CliErrorView>(error.deep_view()),
        },
{
    let ghost before = parts.deep_view();
    let part = match token {
        Token::Text(value) => Part::text(value.as_str()),
        Token::File(value) => match build_file_part(value.as_str(), loaded) {
            Ok(part) => part,
            Err(error) => {
                return Err(error);
            },
        },
        Token::Data(value) => match build_data_part(value.as_str(), loaded) {
            Ok(part) => part,
            Err(error) => {
                return Err(error);
            },
        },
        Token::MediaType(value) => match parts.pop() {
            Some(part) => {
                let mut part = part;
                part.media_type = Some(value.clone());
                let ghost view = part.deep_view();
                parts.push(part);
                assert(parts.deep_view() =~= before.drop_last().push(view));
                return Ok(());
            },
            None => {
                return Err(make_stray_media_type());
            },
        },
    };
    let ghost view = part.deep_view();
    parts.push(part);
    assert(parts.deep_view() =~= before.push(view));
    Ok(())
}

/// What fallible parts stand for.
pub open spec fn parts_view(parts: Result<Vec<Part>, CliError>) -> Result<
    Seq<PartView>,
    CliErrorView,
> {
    match parts {
        Ok(parts) => Ok(parts.deep_view()),
        Err(error) => Err(error.deep_view()),
    }
}

proof fn lemma_assembly_stops(
    tokens: Seq<TokenView>,
    loaded: Seq<LoadedView>,
    i: int,
    n: int,
    error: CliErrorView,
)
    requires
        0 <= i <= n,
        assembled(tokens, loaded, i) == Err::<Seq<PartView>, CliErrorView>(error),
    ensures
        assembled(tokens, loaded, n) == Err::<Seq<PartView>, CliErrorView>(error),
    decreases n - i,
{
    if i < n {
        lemma_assembly_stops(tokens, loaded, i + 1, n, error);
    }
}

/// Makes the parts of a message from its tokens and what was read for each.
pub fn assemble_parts(tokens: &Vec<Token>, loaded: Vec<Loaded>) -> (r: Result<
    Vec<Part>,
    CliError,
>)
    requires
        loaded@.len() == tokens@.len(),
    ensures
        parts_view(r) == assembled(
            tokens.deep_view(),
            loaded.deep_view(),
            tokens@.len() as int,
        ),
{
    let ghost all = loaded.deep_view();
    let ghost typed = tokens.deep_view();
    let mut rest = loaded;
    let mut parts: Vec<Part> = Vec::new();
    let mut i: usize = 0;
    assert(parts.deep_view() =~= Seq::<PartView>::empty());
    assert(rest.deep_view() =~= all.skip(0));
    while i < tokens.len()
        invariant
            i <= tokens@.len(),
            typed == tokens.deep_view(),
            all == loaded.deep_view(),
            all.len() == tokens@.len(),
            rest@.len() == all.len() - i,
            rest.deep_view() == all.skip(i as int),
            assembled(typed, all, i as int) == Ok::<Seq<PartView>, CliErrorView>(
                parts.deep_view(),
            ),
        decreases tokens@.len() - i,
    {
        let ghost held = rest@;
        let ghost before = rest.deep_view();
        let item = rest.remove(0);
        proof {
            assert(before[0] == held[0].deep_view());
            assert(before[0] == all[i as int]);
            assert forall|k: int| 0 <= k < rest@.len() implies rest.deep_view()[k] == all.skip(
                i + 1,
            )[k] by {
                assert(rest@[k] == held[k + 1]);
                assert(before[k + 1] == held[k + 1].deep_view());
                assert(before[k + 1] == all.skip(i as int)[k + 1]);
            }
            assert(rest.deep_view() =~= all.skip(i + 1));
            assert(typed[i as int] == tokens@[i as int].deep_view());
        }
        match add_token(&mut parts, &tokens[i], item) {
            Ok(_) => {},
            Err(error) => {
                proof {
                    lemma_assembly_stops(
                        typed,
                        all,
                        i + 1,
                        tokens@.len() as int,
                        error.deep_view(),
                    );
                }
                return Err(error);
            },
        }
        i += 1;
    }
    Ok(parts)
}

/// Makes the parts that a command asks for, in the order they were typed.
/// `loaded` is what was read for each token in that order.
pub fn resolve_message_parts(
    indices: &PartIndices,
    command: &MessageCommand,
    loaded: Vec<Loaded>,
) -> (r: Result<Vec<Part>, CliError>)
    requires
        typed_tokens(*indices, *command) matches Ok(tokens) ==> loaded@.len() == tokens.len(),
    ensures
        parts_view(r) == match typed_tokens(*indices, *command) {
            Ok(tokens) => assembled(tokens, loaded.deep_view(), tokens.len() as int),
            Err(error) => Err(error),
        },
{
    match order_tokens(indices, command) {
        Ok(tokens) => {
            assert(tokens@.len() == tokens.deep_view().len());
            assemble_parts(&tokens, loaded)
        },
        Err(error) => Err(error),
    }
}

/// How many of the first `n` tokens are parts.
pub open spec fn part_count(tokens: Seq<TokenView>, n: int) -> int
    decreases n,
{
    if n <= 0 {
        0
    } else if tokens[n - 1] is MediaType {
        part_count(tokens, n - 1)
    } else {
        part_count(tokens, n - 1) + 1
    }
}

/// Every part flag makes one part, in the order the flags were typed, and a
/// media type changes the part right before it and no other.
pub proof fn parts_keep_the_typed_order(
    tokens: Seq<TokenView>,
    loaded: Seq<LoadedView>,
    n: int,
)
    requires
        0 < n <= tokens.len(),
        assembled(tokens, loaded, n) is Ok,
    ensures
        assembled(tokens, loaded, n)->Ok_0.len() == part_count(tokens, n),
        assembled(tokens, loaded, n - 1) is Ok,
        ({
            let before = assembled(tokens, loaded, n - 1)->Ok_0;
            let after = assembled(tokens, loaded, n)->Ok_0;
            match tokens[n - 1] {
                TokenView::MediaType(value) => {
                    &&& before.len() > 0
                    &&& after == before.update(
                        before.len() - 1,
                        PartView { media_type: Some(value), ..before.last() },
                    )
                },
                _ => after.len() == before.len() + 1 && after.drop_last() == before,
            }
        }),
    decreases n,
{
    let before = assembled(tokens, loaded, n - 1)->Ok_0;
    let after = assembled(tokens, loaded, n)->Ok_0;
    if n > 1 {
        parts_keep_the_typed_order(tokens, loaded, n - 1);
    } else {
        assert(assembled(tokens, loaded, 0) == Ok::<Seq<PartView>, CliErrorView>(Seq::empty()));
        assert(part_count(tokens, 0) == 0);
    }
    match tokens[n - 1] {
        TokenView::MediaType(value) => {
            assert(after =~= before.update(
                before.len() - 1,
                PartView { media_type: Some(value), ..before.last() },
            ));
        },
        _ => {
            assert(after.drop_last() =~= before);
        },
    }
}

/// Whether a text holds `://`.
pub open spec fn names_a_url(value: Seq<char>) -> bool {
    exists|i: int|
        0 <= i && i + 3 <= value.len() && value[i] == ':' && #[trigger] value[i + 1] == '/' && value[i
            + 2] == '/'
}

proof fn lemma_names_a_url(value: Seq<char>)
    ensures
        names_a_url(value) <==> text::found(value, "://"@) is Some,
{
    reveal_strlit("://");
    text::cuts_are_at_the_first_place(value, "://"@);
    text::lemma_found_bounds(value, "://"@);
    if let Some(i) = text::found(value, "://"@) {
        let found = value.subrange(i, i + 3);
        assert(found[0] == ':' && found[1] == '/' && found[2] == '/');
        assert(value[i + 1] == '/');
    }
    if names_a_url(value) {
        let i = choose|i: int|
            0 <= i && i + 3 <= value.len() && value[i] == ':' && #[trigger] value[i + 1] == '/'
                && value[i + 2] == '/';
        assert(value.skip(i).subrange(0, 3) =~= "://"@);
        assert("://"@.is_prefix_of(value.skip(i)));
    }
}

/// A file part that names a URL carries the URL and reads nothing. Any other
/// carries the bytes of the file and its name, and fails where the file cannot
/// be read, with its path and the reason.
pub proof fn file_parts_carry_urls_or_bytes(
    value: &str,
    loaded: Loaded,
    r: Result<Part, CliError>,
)
    requires
        call_ensures(build_file_part, (value, loaded), r),
    ensures
        names_a_url(value@) ==> {
            &&& source(TokenView::File(value@)) == Source::Token
            &&& r matches Ok(part) && {
                let view = part.deep_view();
                &&& view.content == PartContentView::Url(value@)
                &&& view.filename is None && view.media_type is None && view.metadata is None
            }
        },
        !names_a_url(value@) ==> {
            &&& source(TokenView::File(value@)) == Source::FileBytes
            &&& loaded matches Loaded::Bytes { bytes, filename } ==> (r matches Ok(part) && {
                let view = part.deep_view();
                &&& view.content == PartContentView::Raw(bytes.deep_view())
                &&& view.filename == filename.deep_view()
                &&& view.media_type is None && view.metadata is None
            })
            &&& loaded matches Loaded::Failed { kind, reason } ==> (r matches Err(
                CliError::ReadFile { path, reason: told },
            ) && path@ == value@ && told@ == reason@)
        },
{
    lemma_names_a_url(value@);
}

/// A data part carries the JSON that was read for it: from standard input for
/// `-`, else from the file that it names. Where it names no file it is the JSON
/// itself; but standard input that cannot be read is never taken for JSON, and
/// neither is a file that is there and cannot be read.
pub proof fn data_parts_carry_what_was_read(
    value: &str,
    loaded: Loaded,
    r: Result<Part, CliError>,
)
    requires
        call_ensures(build_data_part, (value, loaded), r),
    ensures
        source(TokenView::Data(value@)) == if value@ == "-"@ {
            Source::Stdin
        } else {
            Source::FileText
        },
        r matches Ok(part) ==> {
            let view = part.deep_view();
            &&& view.content is Data
            &&& view.filename is None && view.media_type is None && view.metadata is None
        },
        loaded matches Loaded::Text { text } ==> match json::read_json(text@) {
            Ok(document) => r matches Ok(part) && part.deep_view().content
                == PartContentView::Data(document),
            Err(_) => r matches Err(CliError::InvalidInput(_)),
        },
        loaded matches Loaded::Failed { kind, reason } ==> {
            let nowhere = value@ != "-"@ && kind != ReadErrorKind::Other;
            &&& nowhere ==> match json::read_json(value@) {
                Ok(document) => r matches Ok(part) && part.deep_view().content
                    == PartContentView::Data(document),
                Err(_) => r matches Err(CliError::InvalidInput(_)),
            }
            &&& !nowhere ==> (r matches Err(CliError::ReadFile { path, reason: told }) && told@
                == reason@)
        },
{
}

/// Text becomes a text part, as it is, and nothing has to be read for it or for
/// a media type.
pub proof fn text_parts_carry_the_text(
    tokens: Seq<TokenView>,
    loaded: Seq<LoadedView>,
    n: int,
    value: Seq<char>,
)
    requires
        0 < n <= tokens.len(),
        tokens[n - 1] == TokenView::Text(value),
        assembled(tokens, loaded, n - 1) is Ok,
    ensures
        assembled(tokens, loaded, n) matches Ok(parts) && parts.len() > 0 && {
            let part = parts.last();
            &&& part.content == PartContentView::Text(value)
            &&& part.media_type is None
            &&& part.filename is None
            &&& part.metadata is None
        },
        source(TokenView::Text(value)) == Source::Token,
        source(TokenView::MediaType(value)) == Source::Token,
{
}

/// A media type is set on the part right before it, and is refused where there
/// is none; nothing else of that part changes.
pub proof fn media_types_follow_their_part(
    tokens: Seq<TokenView>,
    loaded: Seq<LoadedView>,
    n: int,
    value: Seq<char>,
)
    requires
        0 < n <= tokens.len(),
        tokens[n - 1] == TokenView::MediaType(value),
        assembled(tokens, loaded, n - 1) is Ok,
    ensures
        ({
            let before = assembled(tokens, loaded, n - 1)->Ok_0;
            &&& before.len() == 0 ==> assembled(tokens, loaded, n) is Err
            &&& before.len() > 0 ==> (assembled(tokens, loaded, n) matches Ok(after) && {
                &&& after.len() == before.len()
                &&& forall|i: int|
                    0 <= i < before.len() - 1 ==> #[trigger] after[i] == before[i]
                &&& after.last().media_type == Some(value)
                &&& after.last().content == before.last().content
                &&& after.last().filename == before.last().filename
                &&& after.last().metadata == before.last().metadata
            })
        }),
{
}

/// Text on its own is one text token. It cannot be combined with part flags,
/// and neither can a media type without any; and something has to be said.
/// Otherwise there is a token for every flag, in the order of the places where
/// the flags stand on the command line.
pub proof fn tokens_are_in_the_order_of_their_places(
    indices: PartIndices,
    command: MessageCommand,
    r: Result<Vec<Token>, CliError>,
)
    requires
        call_ensures(order_tokens, (&indices, &command), r),
        indices.text_parts@.len() == command.text_parts@.len(),
        indices.file_parts@.len() == command.file_parts@.len(),
        indices.data_parts@.len() == command.data_parts@.len(),
        indices.media_types@.len() == command.media_types@.len(),
    ensures
        ({
            let flagged = command.text_parts@.len() + command.file_parts@.len()
                + command.data_parts@.len() > 0;
            let typed = command.media_types@.len() > 0;
            &&& r is Ok <==> flagged && command.text is None || !flagged && !typed
                && command.text is Some
            &&& r matches Err(error) ==> error is InvalidInput
            &&& r matches Ok(tokens) ==> {
                &&& !flagged ==> tokens.deep_view() == seq![TokenView::Text(command.text->0@)]
                &&& flagged ==> exists|all: Seq<(usize, TokenView)>|
                    {
                        &&& #[trigger] all.to_multiset() == every_flag(
                            indices,
                            command,
                        ).to_multiset()
                        &&& tokens.deep_view().len() == all.len()
                        &&& forall|i: int|
                            0 <= i < all.len() ==> #[trigger] tokens.deep_view()[i] == all[i].1
                        &&& forall|i: int, j: int|
                            0 <= i < j < all.len() ==> (#[trigger] all[i]).0 <= (
                            #[trigger] all[j]).0
                    }
            }
        }),
{
    let parts = part_tokens(indices, command);
    assert(command.text_parts.deep_view().len() == command.text_parts@.len());
    assert(command.file_parts.deep_view().len() == command.file_parts@.len());
    assert(command.data_parts.deep_view().len() == command.data_parts@.len());
    assert(command.media_types.deep_view().len() == command.media_types@.len());
    if parts.len() > 0 && command.text is None {
        let given = parts + placed(
            Flag::MediaType,
            indices.media_types@,
            command.media_types.deep_view(),
        );
        assert(given =~= every_flag(indices, command));
        let all = order::sorted::<Placed>(given);
        order::sorted_is_ordered_rearrangement::<Placed>(given);
        assert(all.to_multiset() == every_flag(indices, command).to_multiset());
        assert forall|i: int, j: int| 0 <= i < j < all.len() implies (#[trigger] all[i]).0 <= (
        #[trigger] all[j]).0 by {
            assert(Placed::ranks(all[i], all[j]));
        }
    }
}

/// Every part flag and every media type, each with its place.
pub open spec fn every_flag(indices: PartIndices, command: MessageCommand) -> Seq<
    (usize, TokenView),
> {
    let texts = command.text_parts@;
    let files = command.file_parts@;
    let data = command.data_parts@;
    let types = command.media_types@;
    Seq::new(texts.len(), |i: int| (indices.text_parts@[i], TokenView::Text(texts[i]@))) + Seq::new(
        files.len(),
        |i: int| (indices.file_parts@[i], TokenView::File(files[i]@)),
    ) + Seq::new(data.len(), |i: int| (indices.data_parts@[i], TokenView::Data(data[i]@)))
        + Seq::new(types.len(), |i: int| (indices.media_types@[i], TokenView::MediaType(types[i]@)))
}

} // verus!
