//! Verified rendering: resolving a link's target URL against the requesting
//! host, substituting a link into the fragment template, and splicing the
//! joined fragments into the page template.
use vstd::prelude::*;

use crate::config::Link;
use crate::text::colon_split;
use crate::text::dec_spec;
use crate::text::find_colon;
use crate::text::replace_all;
use crate::text::replace_spec;
use crate::text::u32_to_string;

verus! {

/// `//<hostname>:<port>`, where `<hostname>` is `host` up to (not including)
/// its first `:`.
pub open spec fn set_port_spec(host: Seq<char>, port: u32) -> Seq<char> {
    seq!['/', '/'] + host.take(colon_split(host)) + seq![':'] + dec_spec(port as int)
}

/// Rewrite `host` to point at `port`: strip anything from the first `:` on,
/// and return the protocol-relative `//<hostname>:<port>`.
pub fn set_port(host: &str, port: u32) -> (r: String)
    ensures
        r@ == set_port_spec(host@, port),
{
    let c: usize = find_colon(host);
    let mut r = String::from_str("//");
    r.append(host.substring_char(0, c));
    r.append(":");
    let p = u32_to_string(port);
    r.append(p.as_str());
    proof {
        reveal_strlit("//");
        reveal_strlit(":");
        assert(r@ =~= set_port_spec(host@, port));
    }
    r
}

/// The URL a link renders to: its `url` verbatim when set; else this host on
/// the link's `port`; else the root path.
pub open spec fn link_url_spec(host: Seq<char>, link: Link) -> Seq<char> {
    match link.url {
        Some(u) => u@,
        None => match link.port {
            Some(p) => set_port_spec(host, p),
            None => seq!['/'],
        },
    }
}

/// The sub-heading a link renders: its `sub_heading` when set, else the root
/// path as a placeholder.
pub open spec fn sub_heading_spec(link: Link) -> Seq<char> {
    match link.sub_heading {
        Some(s) => s@,
        None => seq!['/'],
    }
}

/// An explicit `url` is rendered verbatim, whatever the link's `port` holds.
pub proof fn lemma_url_wins(host: Seq<char>, link: Link)
    requires
        link.url is Some,
    ensures
        link_url_spec(host, link) == (link.url->0)@,
{
}

/// With no `url` but a `port`, the rendered URL is `//<hostname>:<port>`:
/// the Host value up to its first `:` (an existing port is stripped), then
/// the link's port in decimal.
pub proof fn lemma_port_rewrite(host: Seq<char>, link: Link)
    requires
        link.url is None,
        link.port is Some,
    ensures
        link_url_spec(host, link) == seq!['/', '/'] + host.take(colon_split(host)) + seq![':']
            + dec_spec(link.port->0 as int),
{
}

/// With neither `url` nor `port`, the rendered URL is the root path.
pub proof fn lemma_url_default(host: Seq<char>, link: Link)
    requires
        link.url is None,
        link.port is None,
    ensures
        link_url_spec(host, link) == seq!['/'],
{
}

/// With no `sub_heading`, the rendered sub-heading is the root path.
pub proof fn lemma_sub_heading_default(link: Link)
    requires
        link.sub_heading is None,
    ensures
        sub_heading_spec(link) == seq!['/'],
{
}

/// Resolve the target URL for `link` as seen from `host`.
pub fn resolve_url(host: &str, link: &Link) -> (r: String)
    ensures
        r@ == link_url_spec(host@, *link),
{
    match &link.url {
        Some(u) => u.clone(),
        None => match link.port {
            Some(p) => set_port(host, p),
            None => {
                let s = String::from_str("/");
                proof {
                    reveal_strlit("/");
                    assert(s@ =~= seq!['/']);
                }
                s
            },
        },
    }
}

/// The fragment template with its three placeholders replaced, in order:
/// the URL, then the title, then the sub-heading.
pub open spec fn render_section_spec(template: Seq<char>, host: Seq<char>, link: Link) -> Seq<
    char,
> {
    replace_spec(
        replace_spec(
            replace_spec(template, "__URL__"@, link_url_spec(host, link)),
            "__TITLE__"@,
            link.title@,
        ),
        "__SUB_HEADING__"@,
        sub_heading_spec(link),
    )
}

fn render_section_string(template: &str, host: &str, link: &Link) -> (r: String)
    ensures
        r@ == render_section_spec(template@, host@, *link),
{
    let url = resolve_url(host, link);
    let s1 = replace_all(template, "__URL__", url.as_str());
    let s2 = replace_all(s1.as_str(), "__TITLE__", link.title.as_str());
    let heading: &str = match &link.sub_heading {
        Some(s) => s.as_str(),
        None => {
            let s = "/";
            proof {
                reveal_strlit("/");
                assert(s@ =~= seq!['/']);
            }
            s
        },
    };
    let s3 = replace_all(s2.as_str(), "__SUB_HEADING__", heading);
    s3
}

/// Render one link into the fragment template. Always succeeds; the `Result`
/// mirrors the shape callers expect of a fallible renderer.
pub fn render_section(template: &str, host: &str, link: &Link) -> (r: Result<String, String>)
    ensures
        r matches Ok(s) && s@ == render_section_spec(template@, host@, *link),
{
    Ok(render_section_string(template, host, link))
}

/// The fragments for all links after the first, each preceded by the joining
/// newline.
pub open spec fn sections_tail_spec(template: Seq<char>, host: Seq<char>, links: Seq<Link>) -> Seq<
    char,
>
    decreases links.len(),
{
    if links.len() == 0 {
        Seq::empty()
    } else {
        seq!['\n'] + render_section_spec(template, host, links[0]) + sections_tail_spec(
            template,
            host,
            links.drop_first(),
        )
    }
}

/// The fragments for all links, in order, joined with newlines.
pub open spec fn sections_spec(template: Seq<char>, host: Seq<char>, links: Seq<Link>) -> Seq<
    char,
> {
    if links.len() == 0 {
        Seq::empty()
    } else {
        render_section_spec(template, host, links[0]) + sections_tail_spec(
            template,
            host,
            links.drop_first(),
        )
    }
}

proof fn lemma_sections_tail_step(template: Seq<char>, host: Seq<char>, links: Seq<Link>, i: int)
    requires
        0 <= i < links.len(),
    ensures
        sections_tail_spec(template, host, links.skip(i)) == seq!['\n'] + render_section_spec(
            template,
            host,
            links[i],
        ) + sections_tail_spec(template, host, links.skip(i + 1)),
{
    let ls = links.skip(i);
    assert(ls[0] == links[i]);
    assert(ls.drop_first() =~= links.skip(i + 1));
}

/// Render every link and join the fragments with newlines, in configuration
/// order.
pub fn render_sections(template: &str, host: &str, links: &Vec<Link>) -> (r: String)
    ensures
        r@ == sections_spec(template@, host@, links@),
{
    let n: usize = links.len();
    if n == 0 {
        let out = String::new();
        proof {
            assert(out@ =~= sections_spec(template@, host@, links@));
        }
        return out;
    }
    let mut out = render_section_string(template, host, &links[0]);
    let mut i: usize = 1;
    proof {
        assert(links@.drop_first() =~= links@.skip(1));
    }
    while i < n
        invariant
            n == links@.len(),
            1 <= i <= n,
            sections_spec(template@, host@, links@) == out@ + sections_tail_spec(
                template@,
                host@,
                links@.skip(i as int),
            ),
        decreases n - i,
    {
        out.append("\n");
        let s = render_section_string(template, host, &links[i]);
        out.append(s.as_str());
        proof {
            reveal_strlit("\n");
            assert("\n"@ =~= seq!['\n']);
            lemma_sections_tail_step(template@, host@, links@, i as int);
        }
        i += 1;
    }
    proof {
        assert(links@.skip(n as int).len() == 0);
        assert(out@ + sections_tail_spec(template@, host@, links@.skip(n as int)) =~= out@);
    }
    out
}

/// The page template with the sections placeholder replaced by the joined
/// fragments.
pub open spec fn page_spec(
    page_template: Seq<char>,
    section_template: Seq<char>,
    host: Seq<char>,
    links: Seq<Link>,
) -> Seq<char> {
    replace_spec(page_template, "__SECTIONS__"@, sections_spec(section_template, host, links))
}

/// Render the whole page for `host`: every link through the fragment
/// template, joined with newlines, spliced into the page template.
pub fn render_page(page_template: &str, section_template: &str, host: &str, links: &Vec<
    Link,
>) -> (r: String)
    ensures
        r@ == page_spec(page_template@, section_template@, host@, links@),
{
    let sections = render_sections(section_template, host, links);
    replace_all(page_template, "__SECTIONS__", sections.as_str())
}

} // verus!
