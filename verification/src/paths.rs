use crate::json::{decimal, decimal_digits, integer_text};
use crate::request::{
    all_digits, id_text, integer, is_digit, number, path_of, piece, request_line, route_of, Route,
};
use crate::text::{before_blank, is_blank, until, word_run};
use vstd::prelude::*;

verus! {

/// Whether `s` holds no `c`.
pub open spec fn free_of(s: Seq<char>, c: char) -> bool {
    forall|i: int| 0 <= i < s.len() ==> #[trigger] s[i] != c
}

/// Whether `s` holds no white space.
pub open spec fn unbroken(s: Seq<char>) -> bool {
    forall|i: int| 0 <= i < s.len() ==> !is_blank(#[trigger] s[i])
}

proof fn lemma_until_passes(front: Seq<char>, rest: Seq<char>, c: char)
    requires
        free_of(front, c),
    ensures
        until(front + rest, c) == front.len() + until(rest, c),
    decreases front.len(),
{
    if front.len() == 0 {
        assert(front + rest =~= rest);
    } else {
        assert((front + rest)[0] == front[0]);
        assert((front + rest).skip(1) =~= front.skip(1) + rest);
        assert(free_of(front.skip(1), c)) by {
            assert forall|i: int| 0 <= i < front.skip(1).len() implies #[trigger] front.skip(1)[i]
                != c by {
                assert(front[i + 1] != c);
            }
        }
        lemma_until_passes(front.skip(1), rest, c);
    }
}

proof fn lemma_word_run_passes(front: Seq<char>, rest: Seq<char>)
    requires
        unbroken(front),
    ensures
        word_run(front + rest) == front.len() + word_run(rest),
    decreases front.len(),
{
    if front.len() == 0 {
        assert(front + rest =~= rest);
    } else {
        assert((front + rest)[0] == front[0]);
        assert((front + rest).skip(1) =~= front.skip(1) + rest);
        assert(unbroken(front.skip(1))) by {
            assert forall|i: int| 0 <= i < front.skip(1).len() implies !is_blank(
                #[trigger] front.skip(1)[i],
            ) by {
                assert(!is_blank(front[i + 1]));
            }
        }
        lemma_word_run_passes(front.skip(1), rest);
    }
}

proof fn lemma_until_within(s: Seq<char>, c: char)
    ensures
        until(s, c) <= s.len(),
    decreases s.len(),
{
    if s.len() > 0 && s[0] != c {
        lemma_until_within(s.skip(1), c);
    }
}

/// Behind a front without a slash and one slash, the pieces are those of the
/// rest, each one place further on.
proof fn lemma_piece_behind_slash(front: Seq<char>, rest: Seq<char>, n: nat)
    requires
        free_of(front, '/'),
    ensures
        piece(front + seq!['/'] + rest, n + 1) == piece(rest, n),
{
    let slash = seq!['/'];
    let whole = front + slash + rest;
    assert(whole =~= front + (slash + rest));
    lemma_until_passes(front, slash + rest, '/');
    assert((slash + rest)[0] == '/');
    assert(until(slash + rest, '/') == 0);
    assert(until(whole, '/') == front.len());
    assert(whole.skip(front.len() as int + 1) =~= rest);
}

/// A word that goes on with nothing or with white space is what is left
/// when the text is cut at its first white space.
proof fn lemma_word_stands(word: Seq<char>, shown: Seq<char>)
    requires
        unbroken(word),
        shown.len() == 0 || is_blank(shown[0]),
    ensures
        before_blank(word + shown) == word,
{
    lemma_word_run_passes(word, shown);
    assert(word_run(shown) == 0);
    assert((word + shown).take(word.len() as int) =~= word);
}

/// The first line of a text that begins with a front without line feed.
proof fn lemma_line_behind(front: Seq<char>, rest: Seq<char>)
    requires
        free_of(front, '\n'),
    ensures
        request_line(front + rest) == front + rest.take(until(rest, '\n') as int),
        until(rest, '\n') <= rest.len(),
{
    lemma_until_passes(front, rest, '\n');
    lemma_until_within(rest, '\n');
    assert((front + rest).take(until(front + rest, '\n') as int) =~= front + rest.take(
        until(rest, '\n') as int,
    ));
}

/// The path of a request of the usual form. Where a request is made of a
/// front with neither slash nor line feed, a path that begins with a slash
/// and holds no white space, and a rest that is empty or begins with white
/// space, its path is that path.
pub proof fn path_of_usual_request(front: Seq<char>, path: Seq<char>, rest: Seq<char>)
    requires
        free_of(front, '/'),
        free_of(front, '\n'),
        path.len() > 0,
        path[0] == '/',
        unbroken(path),
        rest.len() == 0 || is_blank(rest[0]),
    ensures
        path_of(front + path + rest) == path,
{
    let shown = rest.take(until(rest, '\n') as int);
    assert(free_of(front + path, '\n')) by {
        assert forall|i: int| 0 <= i < (front + path).len() implies #[trigger] (front + path)[i]
            != '\n' by {
            if i >= front.len() {
                assert(!is_blank(path[i - front.len()]));
            }
        }
    }
    lemma_line_behind(front + path, rest);
    let line = request_line(front + path + rest);
    assert(line =~= front + (path + shown));
    lemma_until_passes(front, path + shown, '/');
    assert((path + shown)[0] == '/');
    assert(until(path + shown, '/') == 0);
    assert(line.skip(front.len() as int) =~= path + shown);
    assert(shown.len() == 0 || is_blank(shown[0])) by {
        if shown.len() > 0 {
            assert(shown[0] == rest[0]);
        }
    }
    lemma_word_stands(path, shown);
}

/// The identifier of a request of the usual form. Where a request is made of
/// a method, a slash, a name, a slash and a word, with neither slash nor line
/// feed in the method, with neither slash nor white space in the name and in
/// the word, and with nothing or white space behind the word, its identifier
/// is that word. The word may be empty: a request that names no laptop behind
/// the second slash has the empty identifier.
pub proof fn id_of_usual_request(
    method: Seq<char>,
    name: Seq<char>,
    word: Seq<char>,
    rest: Seq<char>,
)
    requires
        free_of(method, '/'),
        free_of(method, '\n'),
        free_of(name, '/'),
        unbroken(name),
        free_of(word, '/'),
        unbroken(word),
        rest.len() == 0 || is_blank(rest[0]),
    ensures
        id_text(method + seq!['/'] + name + seq!['/'] + word + rest) == word,
{
    let slash = seq!['/'];
    let path = slash + name + slash + word;
    assert(unbroken(path)) by {
        assert forall|i: int| 0 <= i < path.len() implies !is_blank(#[trigger] path[i]) by {
            if 1 <= i < 1 + name.len() {
                assert(!is_blank(name[i - 1]));
            } else if i > 1 + name.len() {
                assert(!is_blank(word[i - 2 - name.len()]));
            }
        }
    }
    assert(method + slash + name + slash + word + rest =~= method + path + rest);
    path_of_usual_request(method, path, rest);
    let none = Seq::<char>::empty();
    assert(path =~= none + slash + (name + slash + word));
    lemma_piece_behind_slash(none, name + slash + word, 1);
    lemma_piece_behind_slash(name, word, 0);
    lemma_until_passes(word, none, '/');
    assert(word + none =~= word);
    assert(word.take(word.len() as int) =~= word);
}

/// A request whose first line names one piece only behind its first slash
/// has no identifier, whatever follows: the identifier of a request for all
/// laptops is empty.
pub proof fn id_of_short_path(front: Seq<char>, name: Seq<char>, rest: Seq<char>)
    requires
        free_of(front, '/'),
        free_of(front, '\n'),
        free_of(name, '/'),
        unbroken(name),
        rest.len() == 0 || is_blank(rest[0]),
    ensures
        id_text(front + seq!['/'] + name + rest) == Seq::<char>::empty(),
{
    let slash = seq!['/'];
    let path = slash + name;
    assert(unbroken(path)) by {
        assert forall|i: int| 0 <= i < path.len() implies !is_blank(#[trigger] path[i]) by {
            if i >= 1 {
                assert(!is_blank(name[i - 1]));
            }
        }
    }
    assert(front + slash + name + rest =~= front + path + rest);
    path_of_usual_request(front, path, rest);
    let none = Seq::<char>::empty();
    assert(path =~= none + slash + name);
    lemma_piece_behind_slash(none, name, 1);
    lemma_until_passes(name, none, '/');
    assert(name + none =~= name);
}

proof fn lemma_decimal_is_read(n: nat)
    ensures
        decimal(n).len() >= 1,
        all_digits(decimal(n)),
        number(decimal(n)) == n,
    decreases n,
{
    let digits = decimal_digits();
    assert(digits[0] == '0' && digits[1] == '1' && digits[2] == '2' && digits[3] == '3'
        && digits[4] == '4' && digits[5] == '5' && digits[6] == '6' && digits[7] == '7'
        && digits[8] == '8' && digits[9] == '9');
    let last = digits[n as int % 10];
    assert(is_digit(last) && last as int - '0' as int == n % 10);
    if n < 10 {
        assert(decimal(n).drop_last() =~= Seq::<char>::empty());
        assert(number(decimal(n)) == 10 * number(decimal(n).drop_last()) + n);
    } else {
        lemma_decimal_is_read(n / 10);
        assert(decimal(n).drop_last() =~= decimal(n / 10));
        assert(decimal(n).last() == last);
    }
}

/// An identifier that was written is read back: the decimal text of an
/// integer of 32 bits writes that integer.
pub proof fn written_id_is_read_back(id: i32)
    ensures
        integer(integer_text(id as int)) == Some(id),
        free_of(integer_text(id as int), '/'),
        unbroken(integer_text(id as int)),
        integer_text(id as int).len() > 0,
{
    let text = integer_text(id as int);
    if id < 0 {
        let digits = decimal((-id) as nat);
        lemma_decimal_is_read((-id) as nat);
        assert(text[0] == '-');
        assert(text.skip(1) =~= digits);
        assert forall|i: int| 0 <= i < text.len() implies #[trigger] text[i] != '/' && !is_blank(
            text[i],
        ) by {
            if i > 0 {
                assert(is_digit(digits[i - 1]));
            }
        }
    } else {
        lemma_decimal_is_read(id as nat);
        assert(is_digit(text[0]));
        assert forall|i: int| 0 <= i < text.len() implies #[trigger] text[i] != '/' && !is_blank(
            text[i],
        ) by {
            assert(is_digit(text[i]));
        }
    }
}

/// A text that differs from `prefix` at the place `i` does not begin with it.
proof fn lemma_begins_otherwise(prefix: Seq<char>, s: Seq<char>, i: int)
    requires
        0 <= i < prefix.len(),
        i < s.len() ==> prefix[i] != s[i],
    ensures
        !prefix.is_prefix_of(s),
{
    if prefix.is_prefix_of(s) {
        assert(s.subrange(0, prefix.len() as int)[i] == s[i]);
    }
}

/// Whether `method` is one of the three methods whose requests name a laptop
/// in their path.
pub open spec fn names_a_laptop(method: Seq<char>) -> bool {
    method == "GET"@ || method == "PUT"@ || method == "DELETE"@
}

/// The route of the requests of `method` that name a laptop in their path.
pub open spec fn route_for(method: Seq<char>) -> Route {
    if method == "GET"@ {
        Route::ReadOne
    } else if method == "PUT"@ {
        Route::Update
    } else {
        Route::Delete
    }
}

/// A request of the usual form: the method, the path `/laptops/` with `word`
/// behind it, and the rest.
pub open spec fn usual_request(method: Seq<char>, word: Seq<char>, rest: Seq<char>) -> Seq<char> {
    method + " /laptops/"@ + word + rest
}

/// The identifier of a request of the usual form is the word behind
/// `/laptops/`, where that word holds neither slash nor white space and
/// nothing or white space follows it.
proof fn lemma_usual_id(method: Seq<char>, word: Seq<char>, rest: Seq<char>)
    requires
        names_a_laptop(method),
        free_of(word, '/'),
        unbroken(word),
        rest.len() == 0 || is_blank(rest[0]),
    ensures
        id_text(usual_request(method, word, rest)) == word,
{
    reveal_strlit("GET");
    reveal_strlit("PUT");
    reveal_strlit("DELETE");
    reveal_strlit(" /laptops/");
    let front = method.push(' ');
    let name = seq!['l', 'a', 'p', 't', 'o', 'p', 's'];
    assert(free_of(front, '/') && free_of(front, '\n'));
    assert(free_of(name, '/') && unbroken(name));
    id_of_usual_request(front, name, word, rest);
    assert(usual_request(method, word, rest) =~= front + seq!['/'] + name + seq!['/'] + word
        + rest);
}

/// The route of a request of the usual form goes by its method.
proof fn lemma_usual_route(method: Seq<char>, tail: Seq<char>)
    requires
        names_a_laptop(method),
    ensures
        route_of(method + " /laptops/"@ + tail) == route_for(method),
{
    let request = method + " /laptops/"@ + tail;
    reveal_strlit("GET");
    reveal_strlit("PUT");
    reveal_strlit("DELETE");
    reveal_strlit(" /laptops/");
    assert(request[0] == method[0] && request[1] == method[1]);
    assert(!"POST /laptops"@.is_prefix_of(request)) by {
        reveal_strlit("POST /laptops");
        lemma_begins_otherwise("POST /laptops"@, request, 1);
    }
    if method == "GET"@ {
        reveal_strlit("GET /laptops/");
        assert("GET /laptops/"@ =~= request.subrange(0, 13));
    } else {
        assert(!"GET /laptops/"@.is_prefix_of(request)) by {
            reveal_strlit("GET /laptops/");
            lemma_begins_otherwise("GET /laptops/"@, request, 0);
        }
        assert(!"GET /laptops"@.is_prefix_of(request)) by {
            reveal_strlit("GET /laptops");
            lemma_begins_otherwise("GET /laptops"@, request, 0);
        }
        if method == "PUT"@ {
            reveal_strlit("PUT /laptops/");
            assert("PUT /laptops/"@ =~= request.subrange(0, 13));
        } else {
            assert(!"PUT /laptops/"@.is_prefix_of(request)) by {
                reveal_strlit("PUT /laptops/");
                lemma_begins_otherwise("PUT /laptops/"@, request, 0);
            }
            reveal_strlit("DELETE /laptops/");
            assert("DELETE /laptops/"@ =~= request.subrange(0, 16));
        }
    }
}

/// The requests that name a laptop in the usual way are understood: behind
/// `GET /laptops/`, `PUT /laptops/` or `DELETE /laptops/`, the decimal text
/// of an identifier, followed by nothing or by white space, is read as that
/// identifier, on the route of that method.
pub proof fn usual_requests_name_their_laptop(method: Seq<char>, id: i32, rest: Seq<char>)
    requires
        names_a_laptop(method),
        rest.len() == 0 || is_blank(rest[0]),
    ensures
        route_of(usual_request(method, integer_text(id as int), rest)) == route_for(method),
        integer(id_text(usual_request(method, integer_text(id as int), rest))) == Some(id),
{
    let word = integer_text(id as int);
    written_id_is_read_back(id);
    lemma_usual_id(method, word, rest);
    assert(usual_request(method, word, rest) =~= method + " /laptops/"@ + (word + rest));
    lemma_usual_route(method, word + rest);
}

/// The requests that name no laptop behind `/laptops/` have no identifier:
/// where nothing or white space follows the last slash of the path, the
/// identifier is the empty text, which writes no integer.
pub proof fn requests_without_id_name_no_laptop(method: Seq<char>, rest: Seq<char>)
    requires
        names_a_laptop(method),
        rest.len() == 0 || is_blank(rest[0]),
    ensures
        route_of(usual_request(method, Seq::empty(), rest)) == route_for(method),
        id_text(usual_request(method, Seq::empty(), rest)) == Seq::<char>::empty(),
        integer(id_text(usual_request(method, Seq::empty(), rest))) is None,
{
    let word = Seq::<char>::empty();
    lemma_usual_id(method, word, rest);
    assert(usual_request(method, word, rest) =~= method + " /laptops/"@ + (word + rest));
    lemma_usual_route(method, word + rest);
}

/// A request for all laptops names none: behind `GET /laptops`, followed by
/// nothing or by white space, whatever the version and the headers hold, the
/// route is the one for all laptops and the identifier is empty.
pub proof fn list_request_names_no_laptop(rest: Seq<char>)
    requires
        rest.len() == 0 || is_blank(rest[0]),
    ensures
        route_of("GET /laptops"@ + rest) == Route::ReadAll,
        id_text("GET /laptops"@ + rest) == Seq::<char>::empty(),
{
    let request = "GET /laptops"@ + rest;
    let front = seq!['G', 'E', 'T', ' '];
    let name = seq!['l', 'a', 'p', 't', 'o', 'p', 's'];
    assert(request =~= front + seq!['/'] + name + rest) by {
        reveal_strlit("GET /laptops");
    }
    assert(free_of(front, '/') && free_of(front, '\n'));
    assert(free_of(name, '/') && unbroken(name));
    id_of_short_path(front, name, rest);
    assert("GET /laptops"@.is_prefix_of(request)) by {
        assert("GET /laptops"@ =~= request.subrange(0, "GET /laptops"@.len() as int));
    }
    assert(!"POST /laptops"@.is_prefix_of(request)) by {
        reveal_strlit("GET /laptops");
        reveal_strlit("POST /laptops");
        lemma_begins_otherwise("POST /laptops"@, request, 0);
    }
    assert(!"GET /laptops/"@.is_prefix_of(request)) by {
        reveal_strlit("GET /laptops");
        reveal_strlit("GET /laptops/");
        lemma_begins_otherwise("GET /laptops/"@, request, 12);
    }
}

} // verus!
