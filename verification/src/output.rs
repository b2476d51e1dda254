use vstd::prelude::*;

verus! {

/// How one chosen URL is printed: raw, or wrapped in markdown image
/// syntax.
pub open spec fn formatted(url: Seq<char>, markdown: bool) -> Seq<char> {
    if markdown {
        "![R+]("@ + url + ")"@
    } else {
        url
    }
}

/// Format one chosen URL for printing.
pub fn format_output(url: &str, markdown: bool) -> (r: String)
    ensures
        r@ == formatted(url@, markdown),
{
    if markdown {
        let mut out = "![R+](".to_owned();
        out.append(url);
        out.append(")");
        out
    } else {
        url.to_owned()
    }
}

/// Several results on one line each: a single newline between neighbours
/// and no separator after the last.
pub open spec fn joined_lines(items: Seq<Seq<char>>) -> Seq<char>
    decreases items.len(),
{
    if items.len() == 0 {
        Seq::empty()
    } else if items.len() == 1 {
        items[0]
    } else {
        items[0] + seq!['\n'] + joined_lines(items.skip(1))
    }
}

/// Appending one more line to a joined rendering.
proof fn lemma_joined_push(items: Seq<Seq<char>>, item: Seq<char>)
    ensures
        items.len() == 0 ==> joined_lines(items.push(item)) == item,
        items.len() > 0
            ==> joined_lines(items.push(item)) == joined_lines(items) + seq!['\n'] + item,
    decreases items.len(),
{
    let pushed = items.push(item);
    if items.len() == 0 {
        assert(pushed.len() == 1);
        assert(pushed[0] == item);
    } else {
        assert(pushed.len() >= 2);
        assert(pushed[0] == items[0]);
        assert(pushed.skip(1) =~= items.skip(1).push(item));
        lemma_joined_push(items.skip(1), item);
        if items.len() == 1 {
            assert(items.skip(1).len() == 0);
            assert(joined_lines(pushed) =~= items[0] + seq!['\n'] + item);
            assert(joined_lines(items) == items[0]);
        } else {
            assert(joined_lines(pushed)
                =~= items[0] + seq!['\n'] + (joined_lines(items.skip(1)) + seq!['\n'] + item));
            assert(joined_lines(items) + seq!['\n'] + item
                =~= items[0] + seq!['\n'] + (joined_lines(items.skip(1)) + seq!['\n'] + item));
        }
    }
}

/// Format every chosen URL and join them, one line per result, with a
/// single newline between lines and none after the last.
pub fn format_outputs(urls: &Vec<String>, markdown: bool) -> (r: String)
    ensures
        r@ == joined_lines(urls@.map_values(|u: String| formatted(u@, markdown))),
{
    let ghost lines = urls@.map_values(|u: String| formatted(u@, markdown));
    let mut out = String::new();
    let mut k: usize = 0;
    proof {
        assert(lines.take(0) =~= Seq::<Seq<char>>::empty());
        assert(out@ =~= joined_lines(lines.take(0)));
    }
    #[verifier::loop_isolation(false)]
    while k < urls.len()
        invariant
            k <= urls@.len(),
            out@ == joined_lines(lines.take(k as int)),
        decreases urls@.len() - k,
    {
        if k > 0 {
            out.append("\n");
        }
        let line = format_output(urls[k].as_str(), markdown);
        out.append(line.as_str());
        proof {
            reveal_strlit("\n");
            assert("\n"@ =~= seq!['\n']);
            assert(lines.take(k + 1) =~= lines.take(k as int).push(lines[k as int]));
            lemma_joined_push(lines.take(k as int), lines[k as int]);
            assert(lines[k as int] == formatted(urls@[k as int]@, markdown));
            assert(out@ =~= joined_lines(lines.take(k + 1)));
        }
        k += 1;
    }
    proof {
        assert(lines.take(urls@.len() as int) =~= lines);
    }
    out
}

} // verus!
