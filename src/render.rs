use vstd::prelude::*;

use crate::todo::Todo;

verus! {

/// The decimal digit for `d`, which is below ten.
pub open spec fn digit_char(d: nat) -> char {
    seq!['0', '1', '2', '3', '4', '5', '6', '7', '8', '9'][d as int]
}

/// The decimal numeral of a natural number, without leading zeros.
pub open spec fn nat_text(n: nat) -> Seq<char>
    decreases n,
{
    if n < 10 {
        seq![digit_char(n)]
    } else {
        nat_text(n / 10).push(digit_char(n % 10))
    }
}

/// The decimal numeral of an integer, with a leading `-` when negative.
pub open spec fn int_text(n: int) -> Seq<char> {
    if n < 0 {
        seq!['-'] + nat_text((-n) as nat)
    } else {
        nat_text(n as nat)
    }
}

/// What stands in the markup for one character of text: the four
/// characters that HTML gives a meaning to become entities.
pub open spec fn escape_char(c: char) -> Seq<char> {
    if c == '&' {
        seq!['&', 'a', 'm', 'p', ';']
    } else if c == '<' {
        seq!['&', 'l', 't', ';']
    } else if c == '>' {
        seq!['&', 'g', 't', ';']
    } else if c == '"' {
        seq!['&', 'q', 'u', 'o', 't', ';']
    } else {
        seq![c]
    }
}

/// Text escaped for use in HTML, character by character.
pub open spec fn escaped(s: Seq<char>) -> Seq<char>
    decreases s.len(),
{
    if s.len() == 0 {
        Seq::empty()
    } else {
        escaped(s.drop_last()) + escape_char(s.last())
    }
}

/// Relies on maud's `Render` impl for `str`, which escapes `&`, `<`, `>`
/// and `"` and copies every other character.
#[verifier::external_body]
fn escape_html(s: &str) -> (r: String)
    ensures
        r@ == escaped(s@),
{
    maud::Render::render(s).into_string()
}

/// Relies on maud's `Render` impl for `i32`, which writes the decimal
/// numeral of the number.
#[verifier::external_body]
fn render_int(n: i32) -> (r: String)
    ensures
        r@ == int_text(n as int),
{
    maud::Render::render(&n).into_string()
}

/// The class of the text label: the strikethrough class when the row is
/// completed, none otherwise.
pub open spec fn label_class(completed: bool) -> Seq<char> {
    if completed {
        "completed"@
    } else {
        Seq::empty()
    }
}

/// The opening tag of the text label, with its class.
pub open spec fn label_open(completed: bool) -> Seq<char> {
    "<span class=\""@ + label_class(completed) + "\">"@
}

/// The fragment before the text label: the checkbox, checked when the row
/// is completed, which posts to the toggle route and replaces the fragment.
pub open spec fn item_front(t: Todo) -> Seq<char> {
    "<div class=\"todo-item\"><input type=\"checkbox\""@
        + (if t.completed { " checked"@ } else { Seq::empty() })
        + " hx-post=\"/todos/"@
        + int_text(t.id as int)
        + "/toggle\" hx-swap=\"outerHTML\" hx-target=\"closest div\">"@
}

/// The fragment from the label's text on: the escaped text, and a button
/// that calls the delete route and replaces the fragment.
pub open spec fn item_back(t: Todo) -> Seq<char> {
    escaped(t.text@)
        + "</span><button hx-delete=\"/todos/"@
        + int_text(t.id as int)
        + "\" hx-target=\"closest div\" hx-swap=\"outerHTML\">Delete</button></div>"@
}

/// The fragment for one row.
pub open spec fn item_html(t: Todo) -> Seq<char> {
    item_front(t) + label_open(t.completed) + item_back(t)
}

/// Holds when `m` occurs in `s` at some position.
pub open spec fn occurs_in(m: Seq<char>, s: Seq<char>) -> bool {
    exists|i: int| 0 <= i && i + m.len() <= s.len() && #[trigger] s.subrange(i, i + m.len()) == m
}

/// The fragment depends on the row alone: equal rows render to equal text.
pub proof fn law_item_deterministic(a: Todo, b: Todo)
    requires
        a == b,
    ensures
        item_html(a) == item_html(b),
{
}

/// The fragment of a completed row opens its label with the strikethrough
/// class; the fragment of a row that is not completed opens it with an empty
/// class, and the two openings differ.
pub proof fn law_strikethrough_marker(t: Todo, u: Todo)
    requires
        t.completed,
        !u.completed,
    ensures
        occurs_in(label_open(true), item_html(t)),
        occurs_in(label_open(false), item_html(u)),
        label_class(true) == "completed"@,
        label_class(false).len() == 0,
        label_open(true) != label_open(false),
{
    reveal_strlit("completed");
    let ft = item_front(t);
    let fu = item_front(u);
    assert(item_html(t).subrange(ft.len() as int, (ft.len() + label_open(true).len()) as int)
        =~= label_open(true));
    assert(item_html(u).subrange(fu.len() as int, (fu.len() + label_open(false).len()) as int)
        =~= label_open(false));
    assert(label_open(true).len() != label_open(false).len());
}

/// No numeral holds `<`.
proof fn lemma_nat_text_no_lt(n: nat)
    ensures
        forall|i: int| 0 <= i < nat_text(n).len() ==> #[trigger] nat_text(n)[i] != '<',
    decreases n,
{
    let d = n % 10;
    let digits = seq!['0', '1', '2', '3', '4', '5', '6', '7', '8', '9'];
    assert(forall|k: int| 0 <= k < 10 ==> #[trigger] digits[k] != '<') by {
        assert(digits[0] == '0' && digits[1] == '1' && digits[2] == '2' && digits[3] == '3');
        assert(digits[4] == '4' && digits[5] == '5' && digits[6] == '6' && digits[7] == '7');
        assert(digits[8] == '8' && digits[9] == '9');
    }
    if n >= 10 {
        lemma_nat_text_no_lt(n / 10);
        let t = nat_text(n / 10);
        assert(digit_char(d) == digits[d as int]);
        assert(nat_text(n) == t.push(digit_char(d)));
        assert forall|i: int| 0 <= i < nat_text(n).len() implies #[trigger] nat_text(n)[i] != '<' by {
            if i < t.len() {
                assert(nat_text(n)[i] == t[i]);
            }
        }
    } else {
        assert(digit_char(n) == digits[n as int]);
        assert(nat_text(n) == seq![digit_char(n)]);
    }
}

/// No numeral holds `<`, with or without its sign.
proof fn lemma_int_text_no_lt(n: int)
    ensures
        forall|i: int| 0 <= i < int_text(n).len() ==> #[trigger] int_text(n)[i] != '<',
{
    if n < 0 {
        lemma_nat_text_no_lt((-n) as nat);
        assert forall|i: int| 0 <= i < int_text(n).len() implies #[trigger] int_text(n)[i] != '<' by {
            if i > 0 {
                assert(int_text(n)[i] == nat_text((-n) as nat)[i - 1]);
            }
        }
    } else {
        lemma_nat_text_no_lt(n as nat);
    }
}

/// Escaped text holds no `<`.
proof fn lemma_escaped_no_lt(s: Seq<char>)
    ensures
        forall|i: int| 0 <= i < escaped(s).len() ==> #[trigger] escaped(s)[i] != '<',
    decreases s.len(),
{
    if s.len() > 0 {
        lemma_escaped_no_lt(s.drop_last());
        let a = escaped(s.drop_last());
        let b = escape_char(s.last());
        assert forall|i: int| 0 <= i < escaped(s).len() implies #[trigger] escaped(s)[i] != '<' by {
            if i >= a.len() {
                assert(escaped(s)[i] == b[i - a.len()]);
            } else {
                assert(escaped(s)[i] == a[i]);
            }
        }
    }
}

/// The fragment of a row that is not completed nowhere holds the label
/// opening with the strikethrough class.
pub proof fn law_open_row_has_no_strike(u: Todo)
    requires
        !u.completed,
    ensures
        !occurs_in(label_open(true), item_html(u)),
{
    reveal_strlit("<div class=\"todo-item\"><input type=\"checkbox\"");
    reveal_strlit(" hx-post=\"/todos/");
    reveal_strlit("/toggle\" hx-swap=\"outerHTML\" hx-target=\"closest div\">");
    reveal_strlit("<span class=\"");
    reveal_strlit("completed");
    reveal_strlit("\">");
    reveal_strlit("</span><button hx-delete=\"/todos/");
    reveal_strlit("\" hx-target=\"closest div\" hx-swap=\"outerHTML\">Delete</button></div>");
    let id = int_text(u.id as int);
    let esc = escaped(u.text@);
    lemma_int_text_no_lt(u.id as int);
    lemma_escaped_no_lt(u.text@);
    let m = label_open(true);
    let h = item_html(u);
    let s0 = "<div class=\"todo-item\"><input type=\"checkbox\""@ + Seq::empty() + " hx-post=\"/todos/"@;
    let s1 = "/toggle\" hx-swap=\"outerHTML\" hx-target=\"closest div\">"@ + label_open(false);
    let s2 = "</span><button hx-delete=\"/todos/"@;
    let s3 = "\" hx-target=\"closest div\" hx-swap=\"outerHTML\">Delete</button></div>"@;
    assert(h =~= s0 + id + s1 + esc + s2 + id + s3);
    let b1 = s0.len() + id.len();
    let b2 = b1 + s1.len();
    let b3 = b2 + esc.len();
    let b4 = b3 + s2.len();
    let b5 = b4 + id.len();
    assert(m.len() == 24);
    assert forall|p: int| 0 <= p && p + m.len() <= h.len() implies #[trigger] h.subrange(p, p + m.len())
        != m by {
        let w = h.subrange(p, p + m.len());
        if p < s0.len() {
            assert(h[p] == s0[p]);
            if s0[p] == '<' {
                assert(h[p + 1] == s0[p + 1]);
                assert(w[1] != m[1]);
            } else {
                assert(w[0] != m[0]);
            }
        } else if p < b1 {
            assert(h[p] == id[p - s0.len()]);
            assert(w[0] != m[0]);
        } else if p < b2 {
            assert(h[p] == s1[p - b1]);
            if p - b1 == s1.len() - 15 {
                assert(h[p + 13] == s1[p + 13 - b1]);
                assert(w[13] != m[13]);
            } else {
                assert(w[0] != m[0]);
            }
        } else if p < b3 {
            assert(h[p] == esc[p - b2]);
            assert(w[0] != m[0]);
        } else if p < b4 {
            assert(h[p] == s2[p - b3]);
            if s2[p - b3] == '<' {
                assert(h[p + 1] == s2[p + 1 - b3]);
                assert(w[1] != m[1]);
            } else {
                assert(w[0] != m[0]);
            }
        } else if p < b5 {
            assert(h[p] == id[p - b4]);
            assert(w[0] != m[0]);
        } else {
            assert(h[p] == s3[p - b5]);
            if s3[p - b5] == '<' {
                assert(h[p + 1] == s3[p + 1 - b5]);
                assert(w[1] != m[1]);
            } else {
                assert(w[0] != m[0]);
            }
        }
    }
}

/// Renders the fragment for one row.
pub fn todo_item(todo: &Todo) -> (r: String)
    ensures
        r@ == item_html(*todo),
{
    let id = render_int(todo.id);
    let mut out = String::new();
    out.append("<div class=\"todo-item\"><input type=\"checkbox\"");
    if todo.completed {
        out.append(" checked");
    }
    out.append(" hx-post=\"/todos/");
    out.append(id.as_str());
    out.append("/toggle\" hx-swap=\"outerHTML\" hx-target=\"closest div\">");
    out.append("<span class=\"");
    if todo.completed {
        out.append("completed");
    }
    out.append("\">");
    let text = escape_html(todo.text.as_str());
    out.append(text.as_str());
    out.append("</span><button hx-delete=\"/todos/");
    out.append(id.as_str());
    out.append("\" hx-target=\"closest div\" hx-swap=\"outerHTML\">Delete</button></div>");
    out
}

/// Everything of the page before the first row: the head with its title,
/// the partial-update script and the inline style, the heading, the
/// creation form that appends its response to the list, and the opening of
/// the list container.
pub open spec fn page_head() -> Seq<char> {
    "<!DOCTYPE html><html><head><title>HTMX Todo App</title><script src=\"https://unpkg.com/htmx.org@1.9.10\"></script><style>.completed { text-decoration: line-through; } .todo-item { display: flex; align-items: center; gap: 8px; margin: 4px 0; }</style></head><body><h1>Todo List</h1><form hx-post=\"/todos\" hx-swap=\"beforeend\" hx-target=\"#todo-list\"><input type=\"text\" name=\"text\" placeholder=\"New todo...\" required><button type=\"submit\">Add</button></form><div id=\"todo-list\">"@
}

/// Everything of the page after the last row.
pub open spec fn page_tail() -> Seq<char> {
    "</div></body></html>"@
}

/// The fragments of the given rows, one after another, in order.
pub open spec fn items_html(todos: Seq<Todo>) -> Seq<char>
    decreases todos.len(),
{
    if todos.len() == 0 {
        Seq::empty()
    } else {
        items_html(todos.drop_last()) + item_html(todos.last())
    }
}

/// The whole document: the list container holds the fragment of each row.
pub open spec fn page_html(todos: Seq<Todo>) -> Seq<char> {
    page_head() + items_html(todos) + page_tail()
}

/// Renders the full page for the given rows.
pub fn index_page(todos: &Vec<Todo>) -> (r: String)
    ensures
        r@ == page_html(todos@),
{
    let mut out = String::new();
    out.append("<!DOCTYPE html><html><head><title>HTMX Todo App</title><script src=\"https://unpkg.com/htmx.org@1.9.10\"></script><style>.completed { text-decoration: line-through; } .todo-item { display: flex; align-items: center; gap: 8px; margin: 4px 0; }</style></head><body><h1>Todo List</h1><form hx-post=\"/todos\" hx-swap=\"beforeend\" hx-target=\"#todo-list\"><input type=\"text\" name=\"text\" placeholder=\"New todo...\" required><button type=\"submit\">Add</button></form><div id=\"todo-list\">");
    let mut i: usize = 0;
    while i < todos.len()
        invariant
            i <= todos@.len(),
            out@ == page_head() + items_html(todos@.take(i as int)),
        decreases todos@.len() - i,
    {
        let item = todo_item(&todos[i]);
        out.append(item.as_str());
        proof {
            let next = todos@.take(i + 1);
            assert(next.drop_last() =~= todos@.take(i as int));
            assert(next.last() == todos@[i as int]);
            assert(out@ =~= page_head() + items_html(next));
        }
        i = i + 1;
    }
    assert(todos@.take(i as int) =~= todos@);
    out.append("</div></body></html>");
    out
}

} // verus!
