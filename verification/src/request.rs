use crate::text::{before_blank, characters, scan_until, scan_word, until};
use vstd::prelude::*;

verus! {

/// Piece number `n`, counted from 0, of `s` cut at every `/`. `None` where `s`
/// has fewer pieces.
pub open spec fn piece(s: Seq<char>, n: nat) -> Option<Seq<char>>
    decreases n,
{
    let cut = until(s, '/');
    if n == 0 {
        Some(s.take(cut as int))
    } else if cut >= s.len() {
        None
    } else {
        piece(s.skip((cut + 1) as int), (n - 1) as nat)
    }
}

/// The first line of a request: what stands before its first line feed.
pub open spec fn request_line(request: Seq<char>) -> Seq<char> {
    request.take(until(request, '\n') as int)
}

/// The path of a request: what stands in its first line from the first slash
/// up to the next white space. Empty where the first line holds no slash.
pub open spec fn path_of(request: Seq<char>) -> Seq<char> {
    let line = request_line(request);
    before_blank(line.skip(until(line, '/') as int))
}

/// The identifier that a request names: the third piece of its path cut at
/// every `/`, where the first piece is the empty one in front of the first
/// slash. Empty where the path has fewer than three pieces.
pub open spec fn id_text(request: Seq<char>) -> Seq<char> {
    match piece(path_of(request), 2) {
        Some(third) => third,
        None => Seq::empty(),
    }
}

/// The identifier in the path of `request`, as text: what stands in the path
/// behind its second slash and before its third. Nothing behind the path is
/// looked at.
pub fn get_id(request: &str) -> (id: &str)
    ensures
        id@ == id_text(request@),
{
    proof {
        reveal_strlit("");
        reveal_with_fuel(piece, 3);
    }
    let v = characters(request);
    let len: usize = v.len();
    let ghost s = request@;
    assert(s.subrange(0, len as int) =~= s);
    let line_end: usize = scan_until(&v, 0, len, '\n');
    let ghost line = request_line(s);
    assert(line =~= s.subrange(0, line_end as int));
    let first: usize = scan_until(&v, 0, line_end, '/');
    assert(line.skip(first as int) =~= s.subrange(first as int, line_end as int));
    let path_end: usize = scan_word(&v, first, line_end);
    let ghost path = path_of(s);
    assert(path =~= s.subrange(first as int, path_end as int));
    if first == path_end {
        assert(""@ =~= Seq::<char>::empty());
        return "";
    }
    assert(path[0] == v@[first as int]);
    assert(path.skip(1) =~= s.subrange(first + 1, path_end as int));
    let second: usize = scan_until(&v, first + 1, path_end, '/');
    if second == path_end {
        assert(""@ =~= Seq::<char>::empty());
        return "";
    }
    let ghost behind = path.skip(1).skip(second - first);
    assert(behind =~= s.subrange(second + 1, path_end as int));
    let third_end: usize = scan_until(&v, second + 1, path_end, '/');
    assert(behind.take(until(behind, '/') as int) =~= s.subrange(second + 1, third_end as int));
    request.substring_char(second + 1, third_end)
}

/// The line break, twice: what parts the head of a request from its body.
pub open spec fn blank_line() -> Seq<char> {
    seq!['\r', '\n', '\r', '\n']
}

/// How many characters of `s` stand before its first blank line: all of them
/// where `s` holds none.
pub open spec fn until_blank_line(s: Seq<char>) -> nat
    decreases s.len(),
{
    if s.len() == 0 || blank_line().is_prefix_of(s) {
        0
    } else {
        1 + until_blank_line(s.skip(1))
    }
}

/// The body of a request: what follows its last blank line, the blank lines
/// being taken from the left and never overlapping. The whole of a request
/// that holds no blank line.
pub open spec fn body_text(request: Seq<char>) -> Seq<char>
    decreases request.len(),
{
    let cut = until_blank_line(request);
    if cut + 4 <= request.len() {
        body_text(request.skip((cut + 4) as int))
    } else {
        request
    }
}

proof fn lemma_no_room_for_blank_line(s: Seq<char>)
    requires
        s.len() < 4,
    ensures
        until_blank_line(s) == s.len(),
    decreases s.len(),
{
    if s.len() > 0 {
        lemma_no_room_for_blank_line(s.skip(1));
    }
}

proof fn lemma_blank_line_found(s: Seq<char>)
    ensures
        until_blank_line(s) <= s.len(),
        until_blank_line(s) < s.len() ==> blank_line().is_prefix_of(
            s.skip(until_blank_line(s) as int),
        ),
    decreases s.len(),
{
    if s.len() == 0 || blank_line().is_prefix_of(s) {
        assert(s.skip(0) =~= s);
    } else {
        lemma_blank_line_found(s.skip(1));
        let cut = until_blank_line(s.skip(1));
        assert(s.skip(1).skip(cut as int) =~= s.skip(cut as int + 1));
    }
}

/// The body is the last part of the request: it is the end of the request, it
/// holds no blank line, and unless it is the whole request a blank line
/// stands right in front of it.
pub proof fn body_is_the_last_part(request: Seq<char>)
    ensures
        body_text(request).len() <= request.len(),
        body_text(request) == request.skip(request.len() - body_text(request).len()),
        until_blank_line(body_text(request)) == body_text(request).len(),
        body_text(request).len() < request.len() ==> body_text(request).len() + 4
            <= request.len() && blank_line() == request.subrange(
            request.len() - body_text(request).len() - 4,
            request.len() - body_text(request).len(),
        ),
    decreases request.len(),
{
    let cut = until_blank_line(request);
    let body = body_text(request);
    lemma_blank_line_found(request);
    if cut + 4 <= request.len() {
        let rest = request.skip((cut + 4) as int);
        body_is_the_last_part(rest);
        let start = request.len() - body.len();
        assert(rest.skip(rest.len() - body.len()) =~= request.skip(start));
        if body.len() < rest.len() {
            assert(rest.subrange(rest.len() - body.len() - 4, rest.len() - body.len())
                =~= request.subrange(start - 4, start));
        } else {
            assert(request.skip(cut as int).subrange(0, 4) =~= request.subrange(start - 4, start));
        }
    } else {
        assert(request.skip(0) =~= request);
    }
}

/// Whether a blank line stands at the place `i` of `s`.
spec fn blank_line_at(s: Seq<char>, i: int) -> bool {
    &&& 0 <= i
    &&& i + 4 <= s.len()
    &&& s[i] == '\r'
    &&& s[i + 1] == '\n'
    &&& s[i + 2] == '\r'
    &&& s[i + 3] == '\n'
}

proof fn lemma_blank_line_at(s: Seq<char>, i: int)
    requires
        0 <= i <= s.len(),
    ensures
        blank_line_at(s, i) <==> blank_line().is_prefix_of(s.skip(i)),
{
    let rest = s.skip(i);
    if blank_line_at(s, i) {
        assert(blank_line() =~= rest.subrange(0, 4));
    }
    if blank_line().is_prefix_of(rest) {
        let front = rest.subrange(0, 4);
        assert(front[0] == '\r' && front[1] == '\n' && front[2] == '\r' && front[3] == '\n');
    }
}

/// One step of the search for the body, from the place `i` behind the place
/// `start` where the last blank line ended.
proof fn lemma_body_search_step(s: Seq<char>, start: int, i: int)
    requires
        0 <= start <= i < s.len(),
        until_blank_line(s.skip(start)) == (i - start) + until_blank_line(s.skip(i)),
    ensures
        blank_line_at(s, i) ==> body_text(s.skip(start)) == body_text(s.skip(i + 4)),
        !blank_line_at(s, i) ==> until_blank_line(s.skip(start)) == (i + 1 - start)
            + until_blank_line(s.skip(i + 1)),
{
    lemma_blank_line_at(s, i);
    if blank_line_at(s, i) {
        assert(s.skip(start).skip(i - start + 4) =~= s.skip(i + 4));
    } else {
        assert(s.skip(i).skip(1) =~= s.skip(i + 1));
    }
}

proof fn lemma_no_blank_line_at(s: Seq<char>, p: int)
    requires
        until_blank_line(s) == s.len(),
        0 <= p,
    ensures
        !blank_line_at(s, p),
    decreases s.len(),
{
    lemma_blank_line_at(s, 0);
    assert(s.skip(0) =~= s);
    if p > 0 && s.len() > 0 {
        lemma_no_blank_line_at(s.skip(1), p - 1);
        if blank_line_at(s, p) {
            let t = s.skip(1);
            assert(t[p - 1] == s[p] && t[p] == s[p + 1] && t[p + 1] == s[p + 2] && t[p + 2] == s[p
                + 3]);
        }
    }
}

proof fn lemma_first_blank_line(head: Seq<char>, tail: Seq<char>)
    requires
        until_blank_line(head) == head.len(),
        head.len() == 0 || head.last() != '\n',
        blank_line_at(tail, 0),
    ensures
        until_blank_line(head + tail) == head.len(),
    decreases head.len(),
{
    let whole = head + tail;
    lemma_blank_line_at(whole, 0);
    assert(whole.skip(0) =~= whole);
    if head.len() == 0 {
        assert(whole =~= tail);
    } else {
        lemma_blank_line_at(head, 0);
        assert(head.skip(0) =~= head);
        lemma_no_blank_line_at(head, 0);
        assert(!blank_line_at(whole, 0)) by {
            if head.len() >= 4 {
                assert(whole[0] == head[0] && whole[1] == head[1] && whole[2] == head[2]
                    && whole[3] == head[3]);
            } else if head.len() == 3 {
                assert(whole[3] == tail[0]);
            } else if head.len() == 2 {
                assert(whole[1] == head.last());
            } else {
                assert(whole[1] == tail[0]);
            }
        }
        let shorter = head.skip(1);
        assert(whole.skip(1) =~= shorter + tail);
        if shorter.len() > 0 {
            assert(shorter.last() == head.last());
        }
        lemma_first_blank_line(shorter, tail);
    }
}

/// The body of a request of the usual form. Where a request is made of a
/// head, a blank line and a body, with no blank line in the head or in the
/// body and no line feed at the end of the head, its body is that body.
pub proof fn body_of_usual_request(head: Seq<char>, body: Seq<char>)
    requires
        until_blank_line(head) == head.len(),
        head.len() == 0 || head.last() != '\n',
        until_blank_line(body) == body.len(),
    ensures
        body_text(head + blank_line() + body) == body,
{
    let tail = blank_line() + body;
    let request = head + blank_line() + body;
    assert(request =~= head + tail);
    lemma_first_blank_line(head, tail);
    assert(request.skip((head.len() + 4) as int) =~= body);
    assert(body_text(body) == body);
    assert(body_text(request) == body_text(request.skip((head.len() + 4) as int)));
}

/// The body of `request`, as text.
pub fn request_body(request: &str) -> (body: &str)
    ensures
        body@ == body_text(request@),
{
    let v = characters(request);
    let len: usize = v.len();
    let ghost s = request@;
    let mut start: usize = 0;
    let mut i: usize = 0;
    assert(s.skip(0) =~= s);
    while len - i >= 4
        invariant
            start <= i <= len,
            len == v.len(),
            v@ == s,
            body_text(s) == body_text(s.skip(start as int)),
            until_blank_line(s.skip(start as int)) == (i - start) + until_blank_line(
                s.skip(i as int),
            ),
        decreases len - i,
    {
        proof {
            lemma_body_search_step(s, start as int, i as int);
        }
        if v[i] == '\r' && v[i + 1] == '\n' && v[i + 2] == '\r' && v[i + 3] == '\n' {
            i += 4;
            start = i;
        } else {
            i += 1;
        }
    }
    proof {
        lemma_no_room_for_blank_line(s.skip(i as int));
        assert(s.skip(start as int) =~= s.subrange(start as int, len as int));
    }
    request.substring_char(start, len)
}

/// Whether `c` is one of the ten decimal digits.
pub open spec fn is_digit(c: char) -> bool {
    '0' <= c <= '9'
}

/// Whether `s` holds decimal digits only.
pub open spec fn all_digits(s: Seq<char>) -> bool {
    forall|i: int| 0 <= i < s.len() ==> is_digit(#[trigger] s[i])
}

/// The number that the decimal digits `s` write.
pub open spec fn number(s: Seq<char>) -> nat
    decreases s.len(),
{
    if s.len() == 0 {
        0
    } else {
        (10 * number(s.drop_last()) + (s.last() as int - '0' as int)) as nat
    }
}

/// The integer that `s` writes in decimal: an optional sign, `+` or `-`, then
/// one digit or more, and nothing else. `None` where `s` is not of that form
/// or writes an integer outside the 32-bit range.
pub open spec fn integer(s: Seq<char>) -> Option<i32> {
    let signed = s.len() > 0 && (s[0] == '-' || s[0] == '+');
    let digits = if signed {
        s.skip(1)
    } else {
        s
    };
    let value = if s.len() > 0 && s[0] == '-' {
        -(number(digits) as int)
    } else {
        number(digits) as int
    };
    if digits.len() > 0 && all_digits(digits) && i32::MIN <= value <= i32::MAX {
        Some(value as i32)
    } else {
        None
    }
}

proof fn lemma_number_grows(s: Seq<char>, k: int)
    requires
        0 <= k <= s.len(),
        all_digits(s),
    ensures
        number(s.take(k)) <= number(s),
    decreases s.len() - k,
{
    if k < s.len() {
        let longer = s.take(k + 1);
        assert(longer.drop_last() =~= s.take(k));
        assert(is_digit(longer.last()));
        lemma_number_grows(s, k + 1);
    } else {
        assert(s.take(k) =~= s);
    }
}

/// The integer that `text` writes.
#[verifier::loop_isolation(false)]
pub fn parse_id(text: &str) -> (id: Option<i32>)
    ensures
        id == integer(text@),
{
    let v = characters(text);
    let len: usize = v.len();
    if len == 0 {
        return None;
    }
    let negative = v[0] == '-';
    let start: usize = if v[0] == '-' || v[0] == '+' {
        1
    } else {
        0
    };
    if start == len {
        return None;
    }
    let ghost digits = if start == 1 {
        text@.skip(1)
    } else {
        text@
    };
    let limit: i64 = if negative {
        2147483648
    } else {
        2147483647
    };
    let mut total: i64 = 0;
    let mut i: usize = start;
    assert(digits.take(0) =~= Seq::<char>::empty());
    while i < len
        invariant
            start <= i <= len,
            all_digits(digits.take(i - start)),
            total == number(digits.take(i - start)),
            0 <= total <= limit,
        decreases len - i,
    {
        let c = v[i];
        let ghost longer = digits.take(i - start + 1);
        assert(longer.drop_last() =~= digits.take(i - start));
        assert(longer.last() == c);
        if !('0' <= c && c <= '9') {
            assert(!is_digit(digits[i - start]));
            return None;
        }
        let digit: i64 = (c as u32 - '0' as u32) as i64;
        let next: i64 = total * 10 + digit;
        if next > limit {
            proof {
                if all_digits(digits) {
                    lemma_number_grows(digits, i - start + 1);
                }
            }
            return None;
        }
        total = next;
        i += 1;
    }
    assert(digits.take(i - start) =~= digits);
    if negative {
        Some((-total) as i32)
    } else {
        Some(total as i32)
    }
}

/// What a request asks for.
#[derive(Clone, Copy, Debug, PartialEq, Eq)]
pub enum Route {
    /// Store a new laptop.
    Create,
    /// Read the laptop that the path names.
    ReadOne,
    /// Read every laptop.
    ReadAll,
    /// Replace the laptop that the path names.
    Update,
    /// Remove the laptop that the path names.
    Delete,
    /// Nothing that this service offers.
    Unmatched,
}

/// The route of a request, by how the request begins. The forms are tried in
/// this order, so that a request for one laptop is not taken for a request for
/// all of them.
pub open spec fn route_of(request: Seq<char>) -> Route {
    if "POST /laptops"@.is_prefix_of(request) {
        Route::Create
    } else if "GET /laptops/"@.is_prefix_of(request) {
        Route::ReadOne
    } else if "GET /laptops"@.is_prefix_of(request) {
        Route::ReadAll
    } else if "PUT /laptops/"@.is_prefix_of(request) {
        Route::Update
    } else if "DELETE /laptops/"@.is_prefix_of(request) {
        Route::Delete
    } else {
        Route::Unmatched
    }
}

/// Tells whether `v` begins with `prefix`.
pub fn begins_with(v: &Vec<char>, prefix: &str) -> (b: bool)
    ensures
        b == prefix@.is_prefix_of(v@),
{
    let p = characters(prefix);
    if p.len() > v.len() {
        return false;
    }
    let mut i: usize = 0;
    while i < p.len()
        invariant
            i <= p.len() <= v.len(),
            p@ == prefix@,
            forall|j: int| 0 <= j < i ==> p@[j] == v@[j],
        decreases p.len() - i,
    {
        if p[i] != v[i] {
            assert(v@.subrange(0, p.len() as int)[i as int] != p@[i as int]);
            return false;
        }
        i += 1;
    }
    assert(p@ =~= v@.subrange(0, p.len() as int));
    true
}

/// The route of `request`.
pub fn route(request: &str) -> (r: Route)
    ensures
        r == route_of(request@),
{
    let v = characters(request);
    if begins_with(&v, "POST /laptops") {
        Route::Create
    } else if begins_with(&v, "GET /laptops/") {
        Route::ReadOne
    } else if begins_with(&v, "GET /laptops") {
        Route::ReadAll
    } else if begins_with(&v, "PUT /laptops/") {
        Route::Update
    } else if begins_with(&v, "DELETE /laptops/") {
        Route::Delete
    } else {
        Route::Unmatched
    }
}

} // verus!
