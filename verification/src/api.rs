//! The two services of the bot that compute: a styled QR code as a PNG
//! file, and the exchange with the language model (the request body it is
//! sent, and the answer picked out of its reply).

use vstd::prelude::*;
use serde_json::Value;
use crate::canvas::{canvas_dims, png_encoding, triangle_resized};
use crate::qr::{QrCat, QrCatError, QrStyle, painted_symbol};
use crate::symbol::{qr_symbol, rendered_side, symbol_width};
use crate::text::{
    chars_of, lemma_replace_absent, lemma_replace_char_concat, lemma_replace_char_gone, lemma_replace_char_single,
    lemma_replace_no_new_char, lemma_replace_not_shorter, replace, replace_all, same_text, string_of,
};

verus! {

/// The style that a name given by a user selects: `"rounded"`, `"half"`,
/// and the default for `"default"` and any other name.
pub open spec fn style_named(name: Seq<char>) -> QrStyle {
    if name == "rounded"@ {
        QrStyle::Rounded
    } else if name == "half"@ {
        QrStyle::Half
    } else {
        QrStyle::Default
    }
}

/// The style that `style` names.
pub fn style_from_name(style: &str) -> (r: QrStyle)
    ensures
        r == style_named(style@),
{
    if same_text(style, "default") {
        proof {
            reveal_strlit("default");
            reveal_strlit("rounded");
            reveal_strlit("half");
            assert("default"@[0] != "rounded"@[0]);
            assert("default"@.len() != "half"@.len());
        }
        QrStyle::Default
    } else if same_text(style, "half") {
        proof {
            reveal_strlit("rounded");
            reveal_strlit("half");
            assert("half"@.len() != "rounded"@.len());
        }
        QrStyle::Half
    } else if same_text(style, "rounded") {
        QrStyle::Rounded
    } else {
        QrStyle::Default
    }
}

/// The side, in pixels, of the square that `gen_qr` scales its picture
/// into.
pub open spec fn png_side() -> u32 {
    1024
}

/// The canvas `gen_qr` paints for `data` and `version`: the symbol at
/// resolution 20 in the named style, white on black; or why it paints
/// none.
pub open spec fn gen_qr_canvas(data: Seq<char>, version: i16, style: Seq<char>) -> Result<
    ((u32, u32), Map<(u32, u32), [u8; 4]>),
    QrCatError,
> {
    match qr_symbol(data, version) {
        Err(e) => Err(QrCatError::Encoding(e)),
        Ok(modules) => painted_symbol(
            modules,
            version,
            20,
            style_named(style),
            [255u8, 255u8, 255u8, 255u8],
            [0u8, 0u8, 0u8, 255u8],
        ),
    }
}

/// What `gen_qr` gives: the canvas of `gen_qr_canvas` scaled with the
/// triangle filter to fit 1024 by 1024 pixels and encoded as PNG; or why
/// it gives nothing.
pub open spec fn spec_gen_qr(data: Seq<char>, version: i16, style: Seq<char>) -> Result<Seq<u8>, QrCatError> {
    match gen_qr_canvas(data, version, style) {
        Err(e) => Err(e),
        Ok((dims, pixels)) => {
            let scaled = triangle_resized(dims, pixels, (png_side(), png_side()));
            match png_encoding(scaled.0, scaled.1) {
                Ok(bytes) => Ok(bytes),
                Err(e) => Err(QrCatError::Image(e)),
            }
        },
    }
}

/// Law: the canvas that `gen_qr` encodes is the symbol of its data and
/// version painted at resolution 20, white on black, in the style that its
/// style argument names: `"rounded"` the rounded style, `"half"` the half
/// style, any other name the default style. It does not depend on the
/// data's text in any other way.
pub proof fn law_gen_qr_style(data: Seq<char>, version: i16, name: Seq<char>)
    requires
        qr_symbol(data, version) is Ok,
    ensures
        ({
            let modules = qr_symbol(data, version)->Ok_0;
            let white = [255u8, 255u8, 255u8, 255u8];
            let black = [0u8, 0u8, 0u8, 255u8];
            &&& name == "rounded"@ ==> gen_qr_canvas(data, version, name) == painted_symbol(
                modules,
                version,
                20,
                QrStyle::Rounded,
                white,
                black,
            )
            &&& name == "half"@ ==> gen_qr_canvas(data, version, name) == painted_symbol(
                modules,
                version,
                20,
                QrStyle::Half,
                white,
                black,
            )
            &&& name != "rounded"@ && name != "half"@ ==> gen_qr_canvas(data, version, name) == painted_symbol(
                modules,
                version,
                20,
                QrStyle::Default,
                white,
                black,
            )
        }),
{
    reveal_strlit("rounded");
    reveal_strlit("half");
    assert("half"@.len() != "rounded"@.len());
}

/// Law: the data's encoding failure is what `gen_qr` reports, whatever the
/// style name.
pub proof fn law_gen_qr_encoding_error(data: Seq<char>, version: i16, name: Seq<char>)
    requires
        qr_symbol(data, version) is Err,
    ensures
        gen_qr_canvas(data, version, name) == Err::<((u32, u32), Map<(u32, u32), [u8; 4]>), QrCatError>(
            QrCatError::Encoding(qr_symbol(data, version)->Err_0),
        ),
{
}

/// The builder `gen_qr` paints with.
fn qr_builder(data: &str, version: i16, style: &str) -> (r: QrCat)
    ensures
        r.spec_build() == gen_qr_canvas(data@, version, style@),
        r.spec_version() == version,
{
    let style = style_from_name(style);
    QrCat::new().version(version).data(data).style(style)
}

/// A QR code for `data` as a PNG file, in the named style. The data must
/// fit the version (1 to 40) and the drawing must not overflow
/// (`try_gen_qr` tells); the PNG encoder's error is the only error left.
/// The PNG picture is 1024 by 1024 pixels.
pub fn gen_qr(data: &str, version: i16, style: &str) -> (r: Result<Vec<u8>, QrCatError>)
    requires
        gen_qr_canvas(data@, version, style@) is Ok,
    ensures
        match spec_gen_qr(data@, version, style@) {
            Ok(bytes) => r matches Ok(v) && v@ == bytes,
            Err(e) => r matches Err(f) && f == e,
        },
        ({
            let (dims, pixels) = gen_qr_canvas(data@, version, style@)->Ok_0;
            triangle_resized(dims, pixels, (png_side(), png_side())).0 == (png_side(), png_side())
        }),
{
    let mut cat = qr_builder(data, version, style);
    let image = match cat.build() {
        Ok(image) => image,
        Err(e) => return Err(e),
    };
    proof {
        let side = rendered_side(symbol_width(version));
        let modules = qr_symbol(data@, version)->Ok_0;
        assert(qr_symbol(data@, version) is Ok);
        assert(gen_qr_canvas(data@, version, style@) == painted_symbol(
            modules,
            version,
            20,
            style_named(style@),
            [255u8, 255u8, 255u8, 255u8],
            [0u8, 0u8, 0u8, 255u8],
        ));
        assert(232 <= side <= 1480);
        assert(canvas_dims(image) == ((side * 20) as u32, (side * 20) as u32));
    }
    let dynamic_image = image.resized(1024, 1024);
    match dynamic_image.into_png() {
        Ok(buffer) => Ok(buffer),
        Err(e) => Err(QrCatError::Image(e)),
    }
}

/// Whether `gen_qr` can paint a QR code for these arguments, and if not,
/// why.
pub fn check_gen_qr(data: &str, version: i16, style: &str) -> (r: Result<(), QrCatError>)
    ensures
        match gen_qr_canvas(data@, version, style@) {
            Ok(_) => r is Ok,
            Err(e) => r matches Err(f) && f == e,
        },
{
    let cat = qr_builder(data, version, style);
    cat.check_build()
}

/// `gen_qr` for any input: the error where the data cannot be encoded or
/// the drawing would overflow, as well as the PNG encoder's error.
pub fn try_gen_qr(data: &str, version: i16, style: &str) -> (r: Result<Vec<u8>, QrCatError>)
    ensures
        match spec_gen_qr(data@, version, style@) {
            Ok(bytes) => r matches Ok(v) && v@ == bytes,
            Err(e) => r matches Err(f) && f == e,
        },
{
    match check_gen_qr(data, version, style) {
        Err(e) => Err(e),
        Ok(()) => gen_qr(data, version, style),
    }
}

/// The prompt as it is put between the quotes of the request body:
/// backslashes doubled, then `{}` doubled, then quotes escaped, then line
/// breaks turned into spaces.
pub open spec fn escaped_prompt(prompt: Seq<char>) -> Seq<char> {
    let a = replace_all(prompt, seq!['\\'], seq!['\\', '\\']);
    let b = replace_all(a, seq!['{', '}'], seq!['{', '{', '}', '}']);
    let c = replace_all(b, seq!['"'], seq!['\\', '"']);
    replace_all(c, seq!['\n'], seq![' '])
}

/// Law: an escaped prompt holds no line break, so the request body keeps
/// the prompt on one line.
pub proof fn law_escaped_prompt_one_line(prompt: Seq<char>)
    ensures
        !escaped_prompt(prompt).contains('\n'),
{
    let a = replace_all(prompt, seq!['\\'], seq!['\\', '\\']);
    let b = replace_all(a, seq!['{', '}'], seq!['{', '{', '}', '}']);
    let c = replace_all(b, seq!['"'], seq!['\\', '"']);
    assert(!seq![' '].contains('\n')) by {
        assert(seq![' '][0] == ' ');
    }
    lemma_replace_char_gone(c, '\n', seq![' ']);
}

/// Law: escaping never shortens a prompt.
pub proof fn law_escaped_prompt_not_shorter(prompt: Seq<char>)
    ensures
        escaped_prompt(prompt).len() >= prompt.len(),
{
    let a = replace_all(prompt, seq!['\\'], seq!['\\', '\\']);
    let b = replace_all(a, seq!['{', '}'], seq!['{', '{', '}', '}']);
    let c = replace_all(b, seq!['"'], seq!['\\', '"']);
    lemma_replace_not_shorter(prompt, seq!['\\'], seq!['\\', '\\']);
    lemma_replace_not_shorter(a, seq!['{', '}'], seq!['{', '{', '}', '}']);
    lemma_replace_not_shorter(b, seq!['"'], seq!['\\', '"']);
    lemma_replace_not_shorter(c, seq!['\n'], seq![' ']);
}

/// Law: a prompt with no backslash, brace, quote or line break goes into
/// the request body exactly as it is.
pub proof fn law_plain_prompt_unchanged(prompt: Seq<char>)
    requires
        !prompt.contains('\\'),
        !prompt.contains('{'),
        !prompt.contains('"'),
        !prompt.contains('\n'),
    ensures
        escaped_prompt(prompt) == prompt,
{
    lemma_replace_absent(prompt, seq!['\\'], seq!['\\', '\\']);
    lemma_replace_absent(prompt, seq!['{', '}'], seq!['{', '{', '}', '}']);
    lemma_replace_absent(prompt, seq!['"'], seq!['\\', '"']);
    lemma_replace_absent(prompt, seq!['\n'], seq![' ']);
}

/// How one character of a prompt stands in the request body: a backslash
/// or a quote gets a backslash before it, a line break becomes a space, and
/// any other character stays as it is.
pub open spec fn escape_char(c: char) -> Seq<char> {
    if c == '\\' {
        seq!['\\', '\\']
    } else if c == '"' {
        seq!['\\', '"']
    } else if c == '\n' {
        seq![' ']
    } else {
        seq![c]
    }
}

/// A text with each of its characters escaped on its own, in order.
pub open spec fn escape_each(s: Seq<char>) -> Seq<char>
    decreases s.len(),
{
    if s.len() == 0 {
        Seq::empty()
    } else {
        escape_char(s[0]) + escape_each(s.skip(1))
    }
}

proof fn lemma_escape_single(ch: char)
    ensures
        replace_all(
            replace_all(replace_all(seq![ch], seq!['\\'], seq!['\\', '\\']), seq!['"'], seq!['\\', '"']),
            seq!['\n'],
            seq![' '],
        ) == escape_char(ch),
{
    let bs = seq!['\\', '\\'];
    let eq = seq!['\\', '"'];
    lemma_replace_char_single(ch, '\\', bs);
    if ch == '\\' {
        assert(!bs.contains('"')) by {
            assert(bs[0] != '"' && bs[1] != '"');
        }
        assert(!bs.contains('\n')) by {
            assert(bs[0] != '\n' && bs[1] != '\n');
        }
        lemma_replace_absent(bs, seq!['"'], eq);
        lemma_replace_absent(bs, seq!['\n'], seq![' ']);
    } else {
        lemma_replace_char_single(ch, '"', eq);
        if ch == '"' {
            assert(!eq.contains('\n')) by {
                assert(eq[0] != '\n' && eq[1] != '\n');
            }
            lemma_replace_absent(eq, seq!['\n'], seq![' ']);
        } else {
            lemma_replace_char_single(ch, '\n', seq![' ']);
        }
    }
}

proof fn lemma_escape_rest(s: Seq<char>)
    ensures
        replace_all(
            replace_all(replace_all(s, seq!['\\'], seq!['\\', '\\']), seq!['"'], seq!['\\', '"']),
            seq!['\n'],
            seq![' '],
        ) == escape_each(s),
    decreases s.len(),
{
    let bs = seq!['\\', '\\'];
    let eq = seq!['\\', '"'];
    let sp = seq![' '];
    if s.len() == 0 {
        assert(replace_all(s, seq!['\\'], bs) =~= Seq::<char>::empty());
        assert(replace_all(Seq::<char>::empty(), seq!['"'], eq) =~= Seq::<char>::empty());
        assert(replace_all(Seq::<char>::empty(), seq!['\n'], sp) =~= Seq::<char>::empty());
    } else {
        let h = seq![s[0]];
        let t = s.skip(1);
        assert(s =~= h + t);
        lemma_escape_rest(t);
        lemma_escape_single(s[0]);
        lemma_replace_char_concat(h, t, '\\', bs);
        let h1 = replace_all(h, seq!['\\'], bs);
        let t1 = replace_all(t, seq!['\\'], bs);
        lemma_replace_char_concat(h1, t1, '"', eq);
        let h2 = replace_all(h1, seq!['"'], eq);
        let t2 = replace_all(t1, seq!['"'], eq);
        lemma_replace_char_concat(h2, t2, '\n', sp);
    }
}

/// Law: a prompt without braces is escaped character by character: each
/// backslash and quote gets a backslash before it, each line break becomes
/// a space, and every other character is kept, in the same order.
pub proof fn law_escape_each(prompt: Seq<char>)
    requires
        !prompt.contains('{'),
    ensures
        escaped_prompt(prompt) == escape_each(prompt),
{
    let bs = seq!['\\', '\\'];
    let a = replace_all(prompt, seq!['\\'], bs);
    assert(!bs.contains('{')) by {
        assert(bs[0] != '{' && bs[1] != '{');
    }
    lemma_replace_no_new_char(prompt, seq!['\\'], bs, '{');
    lemma_replace_absent(a, seq!['{', '}'], seq!['{', '{', '}', '}']);
    lemma_escape_rest(prompt);
}

/// Escapes a prompt for the request body.
pub fn escape_prompt(prompt: &str) -> (r: String)
    ensures
        r@ == escaped_prompt(prompt@),
{
    let backslash = vec!['\\'];
    let two_backslashes = vec!['\\', '\\'];
    let braces = vec!['{', '}'];
    let double_braces = vec!['{', '{', '}', '}'];
    let quote = vec!['"'];
    let escaped_quote = vec!['\\', '"'];
    let newline = vec!['\n'];
    let space = vec![' '];
    assert(backslash@ =~= seq!['\\']);
    assert(two_backslashes@ =~= seq!['\\', '\\']);
    assert(braces@ =~= seq!['{', '}']);
    assert(double_braces@ =~= seq!['{', '{', '}', '}']);
    assert(quote@ =~= seq!['"']);
    assert(escaped_quote@ =~= seq!['\\', '"']);
    assert(newline@ =~= seq!['\n']);
    assert(space@ =~= seq![' ']);
    let a = replace(prompt, &backslash, &two_backslashes);
    let b = replace(a.as_str(), &braces, &double_braces);
    let c = replace(b.as_str(), &quote, &escaped_quote);
    replace(c.as_str(), &newline, &space)
}

/// The JSON request sent to the model server for `model` and the already
/// escaped `prompt`, asking for a reply that is not streamed.
pub open spec fn body_text(model: Seq<char>, prompt: Seq<char>) -> Seq<char> {
    "\n        {\n            \"model\": \""@ + model + "\",\n            \"prompt\": \""@ + prompt
        + "\",\n            \"stream\": false\n        }\n    "@
}

/// The request body for `model` and `prompt`, the prompt escaped.
pub fn request_body(model: &str, prompt: &str) -> (r: String)
    ensures
        r@ == body_text(model@, escaped_prompt(prompt@)),
{
    let prompt_formatted = escape_prompt(prompt);
    let mut data = String::new();
    data.append("\n        {\n            \"model\": \"");
    data.append(model);
    data.append("\",\n            \"prompt\": \"");
    data.append(prompt_formatted.as_str());
    data.append("\",\n            \"stream\": false\n        }\n    ");
    data
}

/// `t` without one `'\r'` at its end.
pub open spec fn strip_cr(t: Seq<char>) -> Seq<char> {
    if t.len() > 0 && t.last() == '\r' {
        t.drop_last()
    } else {
        t
    }
}

/// The lines of `cur + rest`, where `cur` holds no line break: a line ends
/// at `'\n'` (and loses a `'\r'` just before it); a last line without
/// `'\n'` counts when it is not empty.
pub open spec fn lines_from(cur: Seq<char>, rest: Seq<char>) -> Seq<Seq<char>>
    decreases rest.len(),
{
    if rest.len() == 0 {
        if cur.len() == 0 {
            Seq::empty()
        } else {
            seq![cur]
        }
    } else if rest[0] == '\n' {
        seq![strip_cr(cur)] + lines_from(Seq::empty(), rest.skip(1))
    } else {
        lines_from(cur.push(rest[0]), rest.skip(1))
    }
}

/// The lines of `text`, as `str::lines` gives them.
pub open spec fn text_lines(text: Seq<char>) -> Seq<Seq<char>> {
    lines_from(Seq::empty(), text)
}

/// No line of `cur + rest` holds a line break when `cur` holds none.
proof fn lemma_lines_from_one_line(cur: Seq<char>, rest: Seq<char>)
    requires
        !cur.contains('\n'),
    ensures
        forall|i: int| 0 <= i < lines_from(cur, rest).len() ==> !(#[trigger] lines_from(cur, rest)[i]).contains('\n'),
    decreases rest.len(),
{
    if rest.len() == 0 {
        if cur.len() > 0 {
            assert(lines_from(cur, rest) == seq![cur]);
            assert(seq![cur][0] == cur);
        } else {
            assert(lines_from(cur, rest).len() == 0);
        }
    } else if rest[0] == '\n' {
        assert(!strip_cr(cur).contains('\n')) by {
            if cur.len() > 0 && cur.last() == '\r' {
                assert forall|j: int| 0 <= j < cur.drop_last().len() implies cur.drop_last()[j] != '\n' by {
                    assert(cur.drop_last()[j] == cur[j]);
                }
            }
        }
        lemma_lines_from_one_line(Seq::empty(), rest.skip(1));
        let tail = lines_from(Seq::<char>::empty(), rest.skip(1));
        assert forall|i: int| 0 <= i < lines_from(cur, rest).len() implies !(#[trigger] lines_from(cur, rest)[i]).contains(
            '\n',
        ) by {
            assert(lines_from(cur, rest) == seq![strip_cr(cur)] + tail);
            if i > 0 {
                assert(lines_from(cur, rest)[i] == tail[i - 1]);
            } else {
                assert(lines_from(cur, rest)[i] == strip_cr(cur));
            }
        }
    } else {
        assert(!cur.push(rest[0]).contains('\n')) by {
            assert forall|j: int| 0 <= j < cur.push(rest[0]).len() implies cur.push(rest[0])[j] != '\n' by {
                if j < cur.len() {
                    assert(cur.push(rest[0])[j] == cur[j]);
                }
            }
        }
        lemma_lines_from_one_line(cur.push(rest[0]), rest.skip(1));
        assert(lines_from(cur, rest) == lines_from(cur.push(rest[0]), rest.skip(1)));
    }
}

/// Law: no line of a text holds a line break.
pub proof fn law_lines_one_line(text: Seq<char>, i: int)
    requires
        0 <= i < text_lines(text).len(),
    ensures
        !text_lines(text)[i].contains('\n'),
{
    lemma_lines_from_one_line(Seq::empty(), text);
}

/// Splits `text` into its lines.
pub fn split_lines(text: &str) -> (v: Vec<String>)
    ensures
        v.len() == text_lines(text@).len(),
        forall|i: int| 0 <= i < v.len() ==> #[trigger] v@[i]@ == text_lines(text@)[i],
{
    let cs = chars_of(text);
    let mut v: Vec<String> = Vec::new();
    let mut cur: Vec<char> = Vec::new();
    let ghost mut done: Seq<Seq<char>> = Seq::empty();
    let mut i: usize = 0;
    assert(text@.skip(0) =~= text@);
    while i < cs.len()
        invariant
            cs@ == text@,
            i <= cs.len(),
            v.len() == done.len(),
            forall|k: int| 0 <= k < v.len() ==> #[trigger] v@[k]@ == done[k],
            text_lines(text@) == done + lines_from(cur@, text@.skip(i as int)),
        decreases cs.len() - i,
    {
        let ghost rest = text@.skip(i as int);
        assert(rest.skip(1) =~= text@.skip(i + 1));
        let c = cs[i];
        if c == '\n' {
            let mut line = cur;
            if line.len() > 0 && line[line.len() - 1] == '\r' {
                line.pop();
            }
            proof {
                if cur@.len() > 0 && cur@.last() == '\r' {
                    assert(line@ =~= cur@.drop_last());
                }
            }
            let ghost stripped = strip_cr(cur@);
            v.push(string_of(&line));
            proof {
                assert(done.push(stripped) + lines_from(Seq::empty(), text@.skip(i + 1)) =~= done + (
                seq![stripped] + lines_from(Seq::empty(), text@.skip(i + 1))));
                done = done.push(stripped);
            }
            cur = Vec::new();
        } else {
            cur.push(c);
        }
        i += 1;
    }
    assert(text@.skip(i as int) =~= Seq::<char>::empty());
    if cur.len() > 0 {
        v.push(string_of(&cur));
        proof {
            done = done.push(cur@);
        }
    }
    assert(text_lines(text@) =~= done);
    v
}

/// The string that `serde_json` finds under `key` in a line: `None` when
/// the line is not JSON, `Some(None)` when it holds no string there.
pub uninterp spec fn json_str_field(line: Seq<char>, key: Seq<char>) -> Option<Option<Seq<char>>>;

/// `serde_json::from_str::<Value>` on one line, then the string under
/// `key` (`value[key].as_str()`), as named by `json_str_field`.
#[verifier::external_body]
fn str_field(line: &str, key: &str) -> (r: Option<Option<String>>)
    ensures
        match json_str_field(line@, key@) {
            None => r is None,
            Some(None) => r == Some(None::<String>),
            Some(Some(t)) => r matches Some(Some(u)) && u@ == t,
        },
{
    serde_json::from_str::<Value>(line).ok().map(|v| v[key].as_str().map(|s| s.to_string()))
}

/// The answer given when no line of the reply carries one.
pub open spec fn fallback_answer() -> Seq<char> {
    "Сорри, я сломался :(((( Попробуйте повторить запрос."@
}

/// The view of what `str_field` gives for one line.
pub open spec fn field_view(f: Option<Option<String>>) -> Option<Option<Seq<char>>> {
    match f {
        None => None,
        Some(None) => Some(None),
        Some(Some(s)) => Some(Some(s@)),
    }
}

/// The first answer among the fields of the lines, or the fallback.
pub open spec fn first_answer(fields: Seq<Option<Option<Seq<char>>>>) -> Seq<char>
    decreases fields.len(),
{
    if fields.len() == 0 {
        fallback_answer()
    } else {
        match fields[0] {
            Some(Some(t)) => t,
            _ => first_answer(fields.skip(1)),
        }
    }
}

/// Law: the answer is the string of the first line that has one under the
/// key, whatever the later lines hold; without such a line it is the
/// fallback answer.
pub proof fn law_first_answer(fields: Seq<Option<Option<Seq<char>>>>, i: int)
    ensures
        0 <= i < fields.len() && (fields[i] matches Some(Some(_))) && (forall|j: int|
            #![trigger fields[j]]
            0 <= j < i ==> !(fields[j] matches Some(Some(_)))) ==> first_answer(fields) == fields[i]->Some_0->Some_0,
        (forall|j: int| #![trigger fields[j]] 0 <= j < fields.len() ==> !(fields[j] matches Some(Some(_)))) ==> first_answer(fields)
            == "Сорри, я сломался :(((( Попробуйте повторить запрос."@,
    decreases fields.len(),
{
    if fields.len() > 0 {
        law_first_answer(fields.skip(1), i - 1);
        if 0 < i < fields.len() && (forall|j: int| #![trigger fields[j]] 0 <= j < i ==> !(fields[j] matches Some(Some(_)))) {
            assert(!(fields[0] matches Some(Some(_))));
            assert forall|j: int| #![trigger fields.skip(1)[j]] 0 <= j < i - 1 implies !(fields.skip(1)[j] matches Some(Some(_))) by {
                assert(fields.skip(1)[j] == fields[j + 1]);
            }
            assert(fields.skip(1)[i - 1] == fields[i]);
        }
        if forall|j: int| #![trigger fields[j]] 0 <= j < fields.len() ==> !(fields[j] matches Some(Some(_))) {
            assert(!(fields[0] matches Some(Some(_))));
            assert forall|j: int| #![trigger fields.skip(1)[j]] 0 <= j < fields.skip(1).len() implies !(fields.skip(1)[j] matches Some(Some(_))) by {
                assert(fields.skip(1)[j] == fields[j + 1]);
            }
        }
    }
}

/// The first answer among the parsed lines of a reply, or the fallback.
pub fn first_response(fields: &Vec<Option<Option<String>>>) -> (r: String)
    ensures
        r@ == first_answer(fields@.map_values(|f: Option<Option<String>>| field_view(f))),
{
    let ghost fs = fields@.map_values(|f: Option<Option<String>>| field_view(f));
    let mut i: usize = 0;
    assert(fs.skip(0) =~= fs);
    while i < fields.len()
        invariant
            fs == fields@.map_values(|f: Option<Option<String>>| field_view(f)),
            i <= fields.len(),
            first_answer(fs) == first_answer(fs.skip(i as int)),
        decreases fields.len() - i,
    {
        assert(fs.skip(i as int).skip(1) =~= fs.skip(i + 1));
        match &fields[i] {
            Some(Some(s)) => {
                return s.clone();
            },
            _ => {},
        }
        i += 1;
    }
    "Сорри, я сломался :(((( Попробуйте повторить запрос.".to_string()
}

/// The answer in the model server's reply `text`: the first line that is
/// JSON with a string under `"response"` gives it; without one, the
/// fallback answer.
pub fn extract_response(text: &str) -> (r: String)
    ensures
        r@ == first_answer(text_lines(text@).map_values(|l: Seq<char>| json_str_field(l, "response"@))),
{
    let lines = split_lines(text);
    let mut fields: Vec<Option<Option<String>>> = Vec::new();
    for i in 0..lines.len()
        invariant
            lines.len() == text_lines(text@).len(),
            forall|k: int| 0 <= k < lines.len() ==> #[trigger] lines@[k]@ == text_lines(text@)[k],
            fields.len() == i,
            forall|k: int|
                0 <= k < i ==> #[trigger] field_view(fields@[k]) == json_str_field(text_lines(text@)[k], "response"@),
    {
        let f = str_field(lines[i].as_str(), "response");
        fields.push(f);
    }
    assert(fields@.map_values(|f: Option<Option<String>>| field_view(f)) =~= text_lines(text@).map_values(
        |l: Seq<char>| json_str_field(l, "response"@),
    ));
    first_response(&fields)
}

} // verus!
