use vstd::prelude::*;

verus! {

/// The line feed byte, which ends a line.
pub const NEWLINE: u8 = 10;

/// The carriage return byte, dropped where it ends a line.
pub const CARRIAGE_RETURN: u8 = 13;

/// Bytes that count as blank within a line: space, tab, carriage return,
/// vertical tab and form feed.
pub open spec fn is_blank_byte(b: u8) -> bool {
    b == 32 || b == 9 || b == 13 || b == 11 || b == 12
}

/// A line made of blank bytes only (an empty line included).
pub open spec fn is_blank_line(line: Seq<u8>) -> bool {
    forall|i: int| 0 <= i < line.len() ==> is_blank_byte(#[trigger] line[i])
}

/// The pieces of `text` between line feeds, in order. There is always one
/// piece more than there are line feeds; the last one is empty where the
/// text ends with a line feed.
pub open spec fn pieces(text: Seq<u8>) -> Seq<Seq<u8>>
    decreases text.len(),
{
    if text.len() == 0 {
        seq![Seq::empty()]
    } else {
        let p = pieces(text.drop_last());
        if text.last() == NEWLINE {
            p.push(Seq::empty())
        } else {
            p.update(p.len() - 1, p.last().push(text.last()))
        }
    }
}

/// The domain named by a line: the line itself, less a carriage return
/// that ends it.
pub open spec fn domain_of_line(line: Seq<u8>) -> Seq<u8> {
    if line.len() > 0 && line.last() == CARRIAGE_RETURN {
        line.drop_last()
    } else {
        line
    }
}

/// The jobs named by a sequence of lines: one per line that is not blank,
/// in order.
pub open spec fn domains_of_lines(lines: Seq<Seq<u8>>) -> Seq<Seq<u8>>
    decreases lines.len(),
{
    if lines.len() == 0 {
        Seq::empty()
    } else {
        let rest = domains_of_lines(lines.drop_last());
        if is_blank_line(lines.last()) {
            rest
        } else {
            rest.push(domain_of_line(lines.last()))
        }
    }
}

/// The jobs named by an input text: one per line that is not blank, in
/// the order of the text.
pub open spec fn domains_of(text: Seq<u8>) -> Seq<Seq<u8>> {
    domains_of_lines(pieces(text))
}

/// The byte views of a list of byte vectors.
pub open spec fn views_of(v: Seq<Vec<u8>>) -> Seq<Seq<u8>> {
    v.map_values(|x: Vec<u8>| x@)
}

/// Tells whether a line is blank.
pub fn is_blank(line: &[u8]) -> (r: bool)
    ensures
        r == is_blank_line(line@),
{
    let mut i: usize = 0;
    while i < line.len()
        invariant
            i <= line@.len(),
            forall|k: int| 0 <= k < i ==> is_blank_byte(#[trigger] line@[k]),
        decreases line@.len() - i,
    {
        let b = line[i];
        if !(b == 32 || b == 9 || b == 13 || b == 11 || b == 12) {
            return false;
        }
        i = i + 1;
    }
    true
}

/// The domain named by a line that is not blank.
fn line_domain(line: Vec<u8>) -> (r: Vec<u8>)
    ensures
        r@ == domain_of_line(line@),
{
    let mut line = line;
    if line.len() > 0 && line[line.len() - 1] == CARRIAGE_RETURN {
        line.pop();
    }
    line
}

/// Reads the jobs of a run from the text of the input file: one domain per
/// line, in file order. Blank lines, those holding nothing but spaces and
/// tabs included, name no domain and are skipped; a carriage return that
/// ends a line is not part of its domain.
pub fn parse_domains(text: &[u8]) -> (r: Vec<Vec<u8>>)
    ensures
        views_of(r@) == domains_of(text@),
{
    let mut out: Vec<Vec<u8>> = Vec::new();
    let mut cur: Vec<u8> = Vec::new();
    let ghost mut done: Seq<Seq<u8>> = Seq::empty();
    let mut i: usize = 0;
    while i < text.len()
        invariant
            i <= text@.len(),
            pieces(text@.take(i as int)) == done.push(cur@),
            views_of(out@) == domains_of_lines(done),
        decreases text@.len() - i,
    {
        let b = text[i];
        proof {
            assert(text@.take(i + 1).drop_last() =~= text@.take(i as int));
            assert(text@.take(i + 1).last() == b);
        }
        if b == NEWLINE {
            proof {
                assert(done.push(cur@).drop_last() =~= done);
            }
            if !is_blank(cur.as_slice()) {
                let d = line_domain(cur);
                out.push(d);
                assert(views_of(out@) =~= domains_of_lines(done.push(cur@)));
            } else {
                assert(domains_of_lines(done.push(cur@)) == domains_of_lines(done));
            }
            proof {
                done = done.push(cur@);
            }
            cur = Vec::new();
            assert(pieces(text@.take(i + 1)) =~= done.push(cur@));
        } else {
            cur.push(b);
            assert(pieces(text@.take(i + 1)) =~= done.push(cur@));
        }
        i = i + 1;
    }
    assert(text@.take(i as int) =~= text@);
    proof {
        assert(done.push(cur@).drop_last() =~= done);
    }
    if !is_blank(cur.as_slice()) {
        let d = line_domain(cur);
        out.push(d);
        assert(views_of(out@) =~= domains_of_lines(done.push(cur@)));
    }
    out
}

} // verus!
