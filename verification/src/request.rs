//! What the user asks for.
//!
//! A request names one run, as the number of a train, `-` and the day of
//! the run, or it is the word `all`.

use vstd::prelude::*;
use vstd::string::*;
use crate::failure::{Failure, FailureView};
use crate::search::{first_index, first_index_within, lemma_first_index_within, lemma_found_first};
use crate::text::{chars_of, texts};

verus! {

/// The character between the number of a train and the day of a run.
pub const SEPARATOR: char = '-';

/// What the user asks for.
#[derive(Clone, Debug, PartialEq, Eq)]
pub enum Request {
    /// The report of one run.
    Train { train_id: String, train_number: String },
    /// The reports of all the runs under way.
    AllTrains,
}

/// A request, with its texts as sequences of characters.
pub enum RequestView {
    Train { train_id: Seq<char>, train_number: Seq<char> },
    AllTrains,
}

impl View for Request {
    type V = RequestView;

    open spec fn view(&self) -> RequestView {
        match *self {
            Request::Train { train_id, train_number } => RequestView::Train {
                train_id: train_id@,
                train_number: train_number@,
            },
            Request::AllTrains => RequestView::AllTrains,
        }
    }
}

/// The number of the train in the identifier of a run: what stands before
/// the separator, where the identifier holds exactly one separator.
pub open spec fn train_number_of(train_id: Seq<char>) -> Option<Seq<char>> {
    match first_index(train_id, SEPARATOR) {
        Some(i) => if train_id.subrange(i + 1, train_id.len() as int).contains(SEPARATOR) {
            None
        } else {
            Some(train_id.subrange(0, i))
        },
        None => None,
    }
}

/// The request that the identifier of a run makes.
pub open spec fn train_request(train_id: Seq<char>) -> Result<RequestView, FailureView> {
    match train_number_of(train_id) {
        Some(train_number) => Ok(RequestView::Train { train_id, train_number }),
        None => Err(FailureView::MalformedTrainId),
    }
}

/// The request that an argument of the command line makes: one run where
/// the argument holds a separator, all runs where it is `all`.
pub open spec fn request_of(argument: Seq<char>) -> Result<RequestView, FailureView> {
    if argument.contains(SEPARATOR) {
        train_request(argument)
    } else if argument == "all"@ {
        Ok(RequestView::AllTrains)
    } else {
        Err(FailureView::UnknownRequest)
    }
}

/// The request that the arguments behind the name of the program make:
/// there has to be exactly one.
pub open spec fn request_of_arguments(program: Seq<char>, arguments: Seq<Seq<char>>) -> Result<
    RequestView,
    FailureView,
> {
    if arguments.len() == 1 {
        request_of(arguments[0])
    } else {
        Err(FailureView::Usage { program })
    }
}

/// What a parsed request says: the request, or the failure.
pub open spec fn parsed(result: Result<Request, Failure>) -> Result<RequestView, FailureView> {
    match result {
        Ok(request) => Ok(request@),
        Err(failure) => Err(failure@),
    }
}

/// The position of the first `c` at or behind `from`.
fn find_char_from(chars: &Vec<char>, c: char, from: usize) -> (found: Option<usize>)
    requires
        from <= chars.len(),
    ensures
        match found {
            Some(i) => from <= i < chars.len() && first_index(
                chars@.subrange(from as int, chars.len() as int),
                c,
            ) == Some(i - from),
            None => !chars@.subrange(from as int, chars.len() as int).contains(c),
        },
{
    let ghost rest = chars@.subrange(from as int, chars.len() as int);
    let mut i: usize = from;
    while i < chars.len()
        invariant
            from <= i <= chars.len(),
            rest == chars@.subrange(from as int, chars.len() as int),
            first_index_within(rest, c, i - from) is None,
        decreases chars.len() - i,
    {
        if chars[i] == c {
            proof {
                assert(rest[i - from] == c);
                lemma_found_first(rest, c, i - from);
            }
            return Some(i);
        }
        i = i + 1;
    }
    proof {
        lemma_first_index_within(rest, c, rest.len() as int);
        if rest.contains(c) {
            let k = choose|k: int| 0 <= k < rest.len() && rest[k] == c;
            assert(rest[k] == c);
        }
    }
    None
}

/// The first `n` characters of `chars`, as a string.
fn prefix_string(chars: &Vec<char>, n: usize) -> (s: String)
    requires
        n <= chars.len(),
    ensures
        s@ == chars@.subrange(0, n as int),
{
    let mut s = String::new();
    let mut i: usize = 0;
    while i < n
        invariant
            i <= n <= chars.len(),
            s@ == chars@.subrange(0, i as int),
        decreases n - i,
    {
        s.push(chars[i]);
        i = i + 1;
    }
    s
}

/// Reads the identifier of a run: the number of a train, one separator,
/// and the day of the run.  Either side of the separator may be empty.
pub fn parse_train_id(train_id: &str) -> (result: Result<Request, Failure>)
    ensures
        parsed(result) == train_request(train_id@),
{
    let chars = chars_of(train_id);
    assert(chars@.subrange(0, chars.len() as int) == chars@);
    match find_char_from(&chars, SEPARATOR, 0) {
        Some(i) => match find_char_from(&chars, SEPARATOR, i + 1) {
            Some(_) => {
                proof {
                    let rest = chars@.subrange(i + 1, chars.len() as int);
                    lemma_first_index_within(rest, SEPARATOR, rest.len() as int);
                }
                Err(Failure::MalformedTrainId)
            },
            None => Ok(
                Request::Train {
                    train_id: String::from_str(train_id),
                    train_number: prefix_string(&chars, i),
                },
            ),
        },
        None => {
            proof {
                lemma_first_index_within(chars@, SEPARATOR, chars.len() as int);
            }
            Err(Failure::MalformedTrainId)
        },
    }
}

/// Reads an argument of the command line as a request.
pub fn parse_request(argument: &str) -> (result: Result<Request, Failure>)
    ensures
        parsed(result) == request_of(argument@),
{
    let chars = chars_of(argument);
    assert(chars@.subrange(0, chars.len() as int) == chars@);
    match find_char_from(&chars, SEPARATOR, 0) {
        Some(_) => {
            proof {
                lemma_first_index_within(chars@, SEPARATOR, chars.len() as int);
            }
            parse_train_id(argument)
        },
        None => if String::from_str(argument) == String::from_str("all") {
            Ok(Request::AllTrains)
        } else {
            Err(Failure::UnknownRequest)
        },
    }
}

/// Reads the command line, without the name of the program, as a request.
pub fn parse_arguments(program: &str, arguments: &Vec<String>) -> (result: Result<
    Request,
    Failure,
>)
    ensures
        parsed(result) == request_of_arguments(program@, texts(arguments@)),
{
    if arguments.len() == 1 {
        parse_request(arguments[0].as_str())
    } else {
        Err(Failure::Usage { program: String::from_str(program) })
    }
}

} // verus!
