//! The build command: a line of text split into whitespace-separated tokens,
//! the first of which names the program to run.
use vstd::prelude::*;
use vstd::slice::slice_subrange;
use vstd::std_specs::iter::IteratorSpec;
use vstd::string::StrSliceExecFns;

verus! {

/// Whether `c` separates tokens: whether it is one of the characters that
/// Unicode classes as white space.
pub open spec fn is_space(c: char) -> bool {
    ||| ('\u{9}' <= c && c <= '\u{d}')
    ||| c == ' '
    ||| c == '\u{85}'
    ||| c == '\u{a0}'
    ||| c == '\u{1680}'
    ||| ('\u{2000}' <= c && c <= '\u{200a}')
    ||| c == '\u{2028}'
    ||| c == '\u{2029}'
    ||| c == '\u{202f}'
    ||| c == '\u{205f}'
    ||| c == '\u{3000}'
}

/// Number of characters before the first separator in `text`, or before its
/// end.
pub open spec fn token_len(text: Seq<char>) -> nat
    decreases text.len(),
{
    if text.len() == 0 || is_space(text[0]) {
        0
    } else {
        1 + token_len(text.drop_first())
    }
}

/// The tokens of `text`: its maximal runs of characters that are not
/// separators, in order.  Any run of separators is one boundary; separators
/// at either end bound nothing.
pub open spec fn split_tokens(text: Seq<char>) -> Seq<Seq<char>>
    decreases text.len(),
    via split_tokens_decreases
{
    if text.len() == 0 {
        Seq::empty()
    } else if is_space(text[0]) {
        split_tokens(text.drop_first())
    } else {
        let n = token_len(text) as int;
        seq![text.subrange(0, n)] + split_tokens(text.subrange(n, text.len() as int))
    }
}

#[via_fn]
proof fn split_tokens_decreases(text: Seq<char>) {
    lemma_token_len(text);
}

/// A token's length stays within the text, every character of the token is
/// not a separator, and the token ends at a separator or at the end of the
/// text.
pub proof fn lemma_token_len(text: Seq<char>)
    ensures
        token_len(text) <= text.len(),
        forall|i: int| 0 <= i < token_len(text) ==> !is_space(#[trigger] text[i]),
        token_len(text) < text.len() ==> is_space(text[token_len(text) as int]),
    decreases text.len(),
{
    if text.len() > 0 && !is_space(text[0]) {
        let rest = text.drop_first();
        lemma_token_len(rest);
        assert forall|i: int| 0 <= i < token_len(text) implies !is_space(#[trigger] text[i]) by {
            if i > 0 {
                assert(text[i] == rest[i - 1]);
            }
        }
    }
}

/// Whether `token` can be a token: it is not empty and holds no separator.
pub open spec fn is_token(token: Seq<char>) -> bool {
    &&& token.len() > 0
    &&& forall|i: int| 0 <= i < token.len() ==> !is_space(#[trigger] token[i])
}

/// No token is empty and no token holds a separator.
pub proof fn lemma_split_tokens_shape(text: Seq<char>)
    ensures
        forall|k: int| 0 <= k < split_tokens(text).len() ==> is_token(#[trigger] split_tokens(text)[k]),
    decreases text.len(),
{
    if text.len() == 0 {
    } else if is_space(text[0]) {
        assert(split_tokens(text) == split_tokens(text.drop_first()));
        lemma_split_tokens_shape(text.drop_first());
    } else {
        let n = token_len(text) as int;
        lemma_token_len(text);
        let rest = text.subrange(n, text.len() as int);
        lemma_split_tokens_shape(rest);
        assert forall|k: int| 0 <= k < split_tokens(text).len() implies is_token(
            #[trigger] split_tokens(text)[k],
        ) by {
            if k > 0 {
                assert(split_tokens(text)[k] == split_tokens(rest)[k - 1]);
            } else {
                assert(split_tokens(text)[0] == text.subrange(0, n));
            }
        }
    }
}

/// A text has no token exactly when it is made of separators only.
pub proof fn lemma_no_tokens_iff_blank(text: Seq<char>)
    ensures
        split_tokens(text).len() == 0 <==> forall|i: int|
            0 <= i < text.len() ==> is_space(#[trigger] text[i]),
    decreases text.len(),
{
    if text.len() == 0 {
    } else if is_space(text[0]) {
        let rest = text.drop_first();
        lemma_no_tokens_iff_blank(rest);
        if split_tokens(text).len() == 0 {
            assert forall|i: int| 0 <= i < text.len() implies is_space(#[trigger] text[i]) by {
                if i > 0 {
                    assert(text[i] == rest[i - 1]);
                }
            }
        } else {
            let j = choose|j: int| 0 <= j < rest.len() && !is_space(#[trigger] rest[j]);
            assert(text[j + 1] == rest[j]);
        }
    }
}

/// Whether `c` separates tokens.
pub fn is_separator(c: char) -> (space: bool)
    ensures
        space == is_space(c),
{
    ('\u{9}' <= c && c <= '\u{d}') || c == ' ' || c == '\u{85}' || c == '\u{a0}' || c
        == '\u{1680}' || ('\u{2000}' <= c && c <= '\u{200a}') || c == '\u{2028}' || c
        == '\u{2029}' || c == '\u{202f}' || c == '\u{205f}' || c == '\u{3000}'
}

/// The characters of `text`, in order.
fn chars_of(text: &str) -> (chars: Vec<char>)
    ensures
        chars@ == text@,
{
    broadcast use vstd::string::group_string_axioms;

    let mut chars: Vec<char> = Vec::new();
    let mut rest = text.chars();
    loop
        invariant
            chars@ + rest.remaining() == text@,
            rest.decrease() is Some,
        decreases rest.decrease()->0,
    {
        let ghost before = rest.remaining();
        match rest.next() {
            Some(c) => {
                chars.push(c);
                assert(chars@ + rest.remaining() =~= text@) by {
                }
            },
            None => {
                return chars;
            },
        }
    }
}

/// The strings in `tokens`, each as its sequence of characters.
pub open spec fn token_texts(tokens: Seq<String>) -> Seq<Seq<char>> {
    tokens.map_values(|t: String| t@)
}

/// Why a build command could not be had from its configuration.
#[derive(Clone, Copy, Debug, PartialEq, Eq, Structural)]
pub enum ConfigError {
    /// There is no configuration to read.
    Missing,
    /// The configuration holds no token.
    NoTokens,
}

/// The tokens of the build command that a configuration line gives, or why
/// it gives none.
pub open spec fn parse_tokens(line: Seq<char>) -> Result<Seq<Seq<char>>, ConfigError> {
    if split_tokens(line).len() > 0 {
        Ok(split_tokens(line))
    } else {
        Err(ConfigError::NoTokens)
    }
}

/// The tokens of the build command that a configuration gives, where the
/// configuration may be absent.
pub open spec fn configured_tokens(config: Option<Seq<char>>) -> Result<
    Seq<Seq<char>>,
    ConfigError,
> {
    match config {
        Some(line) => parse_tokens(line),
        None => Err(ConfigError::Missing),
    }
}

/// The outcome of parsing, with the command seen as its tokens.
pub open spec fn parsed_tokens(parsed: Result<BuildCommand, ConfigError>) -> Result<
    Seq<Seq<char>>,
    ConfigError,
> {
    match parsed {
        Ok(command) => Ok(command@),
        Err(error) => Err(error),
    }
}

/// A build command: the program to run, followed by its arguments.
#[derive(Debug, PartialEq, Eq)]
pub struct BuildCommand {
    tokens: Vec<String>,
}

impl View for BuildCommand {
    type V = Seq<Seq<char>>;

    closed spec fn view(&self) -> Seq<Seq<char>> {
        token_texts(self.tokens@)
    }
}

impl BuildCommand {
    #[verifier::type_invariant]
    spec fn well_formed(&self) -> bool {
        self.tokens@.len() > 0
    }

    /// Splits a configuration line into the tokens of a build command.
    /// A line without any token is refused.
    pub fn parse(line: &str) -> (parsed: Result<BuildCommand, ConfigError>)
        ensures
            parsed_tokens(parsed) == parse_tokens(line@),
    {
        let chars = chars_of(line);
        let ghost text = line@;
        let mut tokens: Vec<String> = Vec::new();
        let mut pos: usize = 0;
        assert(text.skip(0) =~= text);
        assert(token_texts(tokens@) + split_tokens(text) =~= split_tokens(text));
        while pos < chars.len()
            invariant
                pos <= chars@.len(),
                chars@ == text,
                text == line@,
                token_texts(tokens@) + split_tokens(text.skip(pos as int)) == split_tokens(text),
            decreases chars@.len() - pos,
        {
            let ghost here = text.skip(pos as int);
            if is_separator(chars[pos]) {
                assert(here.drop_first() =~= text.skip(pos + 1));
                pos += 1;
            } else {
                let start = pos;
                let mut end = pos + 1;
                assert(here.drop_first() =~= text.skip(end as int));
                while end < chars.len() && !is_separator(chars[end])
                    invariant
                        start < end <= chars@.len(),
                        chars@ == text,
                        token_len(text.skip(start as int)) == (end - start) + token_len(
                            text.skip(end as int),
                        ),
                    decreases chars@.len() - end,
                {
                    assert(text.skip(end as int).drop_first() =~= text.skip(end + 1));
                    end += 1;
                }
                let token = line.substring_char(start, end).to_owned();
                proof {
                    let n = (end - start) as int;
                    assert(here.subrange(0, n) =~= text.subrange(start as int, end as int));
                    assert(here.subrange(n, here.len() as int) =~= text.skip(end as int));
                    assert(split_tokens(here) == seq![token@] + split_tokens(
                        text.skip(end as int),
                    ));
                    assert(token_texts(tokens@.push(token)) =~= token_texts(tokens@) + seq![
                        token@,
                    ]);
                    assert(token_texts(tokens@.push(token)) + split_tokens(text.skip(end as int))
                        =~= token_texts(tokens@) + split_tokens(here));
                }
                tokens.push(token);
                pos = end;
            }
        }
        assert(text.skip(pos as int) =~= Seq::empty());
        assert(token_texts(tokens@) =~= split_tokens(text));
        if tokens.len() == 0 {
            Err(ConfigError::NoTokens)
        } else {
            Ok(BuildCommand { tokens })
        }
    }

    /// The build command of a configuration that may be absent.
    pub fn from_config(config: Option<&str>) -> (parsed: Result<BuildCommand, ConfigError>)
        ensures
            parsed_tokens(parsed) == configured_tokens(
                match config {
                    Some(line) => Some(line@),
                    None => None,
                },
            ),
    {
        match config {
            Some(line) => BuildCommand::parse(line),
            None => Err(ConfigError::Missing),
        }
    }

    /// The program to run: the first token.
    pub fn program(&self) -> (program: &str)
        ensures
            self@.len() > 0,
            program@ == self@[0],
    {
        proof {
            use_type_invariant(self);
        }
        self.tokens[0].as_str()
    }

    /// The arguments to pass to the program: every token after the first.
    pub fn arguments(&self) -> (arguments: &[String])
        ensures
            token_texts(arguments@) == self@.subrange(1, self@.len() as int),
    {
        proof {
            use_type_invariant(self);
        }
        let arguments = slice_subrange(self.tokens.as_slice(), 1, self.tokens.len());
        assert(token_texts(arguments@) =~= token_texts(self.tokens@).subrange(
            1,
            self.tokens@.len() as int,
        ));
        arguments
    }

    /// All tokens: the program, then its arguments.
    pub fn tokens(&self) -> (tokens: &Vec<String>)
        ensures
            token_texts(tokens@) == self@,
            tokens@.len() > 0,
    {
        proof {
            use_type_invariant(self);
        }
        &self.tokens
    }
}

/// How the build process ended.
#[derive(Clone, Copy, Debug, PartialEq, Eq, Structural)]
pub enum ProcessOutcome {
    /// The process could not be started.
    SpawnFailed,
    /// The process ran and exited; `success` tells whether its exit status
    /// reported success.
    Exited { success: bool },
}

/// A span of wall-clock time: whole seconds and the nanoseconds beyond them.
#[derive(Clone, Copy, Debug, PartialEq, Eq, Structural)]
pub struct Elapsed {
    pub secs: u64,
    pub nanos: u32,
}

/// The result of one build: whether it succeeded and how long it took.
#[derive(Clone, Copy, Debug, PartialEq, Eq, Structural)]
pub struct BuildResult {
    pub success: bool,
    pub elapsed: Elapsed,
}

/// Whether a build that ended with `outcome` succeeded: only a process that
/// was started and reported success counts.
pub open spec fn build_succeeded(outcome: ProcessOutcome) -> bool {
    outcome == (ProcessOutcome::Exited { success: true })
}

impl BuildResult {
    /// The result of a build that ended with `outcome` after `elapsed`.
    pub fn from_outcome(outcome: ProcessOutcome, elapsed: Elapsed) -> (result: BuildResult)
        ensures
            result.success == build_succeeded(outcome),
            result.elapsed == elapsed,
    {
        let success = match outcome {
            ProcessOutcome::SpawnFailed => false,
            ProcessOutcome::Exited { success } => success,
        };
        BuildResult { success, elapsed }
    }
}

} // verus!
