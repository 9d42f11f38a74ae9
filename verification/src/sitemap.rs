//! The sitemap of a site: the list of its pages, as XML.

use vstd::prelude::*;
use crate::config::SiteConfig;
use crate::markup::{escape_text, escaped_text};
use crate::rss::{base_url_of, get_guid_from_content_output_path, guid_of};
use vstd::string::*;

verus! {

/// One page of the site.
#[derive(Debug, Clone, PartialEq, Eq)]
pub struct SitemapUrl {
    /// Where the page is published.
    pub loc: String,
}

/// The pages of the site.
#[derive(Debug, Clone, PartialEq, Eq)]
pub struct Sitemap {
    /// The pages, in the order they are written.
    pub urls: Vec<SitemapUrl>,
}

/// The locations in `urls`, as character sequences.
pub open spec fn locations(urls: Seq<SitemapUrl>) -> Seq<Seq<char>> {
    urls.map_values(|u: SitemapUrl| u.loc@)
}

/// The elements of the first `n` locations, one after the other.
pub open spec fn url_elements(locs: Seq<Seq<char>>, n: int) -> Seq<char>
    decreases n,
{
    if n <= 0 {
        Seq::<char>::empty()
    } else {
        url_elements(locs, n - 1) + "<url><loc>"@ + escaped_text(locs[n - 1]) + "</loc></url>"@
    }
}

/// The XML of a sitemap: the declaration, the root element with its
/// namespace, and one element for each location.
pub open spec fn sitemap_xml(locs: Seq<Seq<char>>) -> Seq<char> {
    "<?xml version=\"1.0\" encoding=\"UTF-8\"?>"@
        + "<urlset xmlns=\"http://www.sitemaps.org/schemas/sitemap/0.9\">"@ + url_elements(
        locs,
        locs.len() as int,
    ) + "</urlset>"@
}

/// The locations of the sources among the first `n` that lie below the
/// content root and are markup.
pub open spec fn page_locations(paths: Seq<String>, n: int, config: SiteConfig) -> Seq<Seq<char>>
    decreases n,
{
    if n <= 0 {
        Seq::<Seq<char>>::empty()
    } else {
        match guid_of(
            config.build.content@,
            base_url_of(config),
            config.build.slug.path,
            paths[n - 1]@,
        ) {
            Ok(loc) => page_locations(paths, n - 1, config).push(loc),
            Err(_) => page_locations(paths, n - 1, config),
        }
    }
}

impl Sitemap {
    /// The sitemap of the pages of the given sources. A source that cannot
    /// be published is passed over.
    pub fn from_paths(paths: &Vec<String>, config: &SiteConfig) -> (sitemap: Sitemap)
        ensures
            locations(sitemap.urls@) == page_locations(paths@, paths.len() as int, *config),
    {
        let mut urls: Vec<SitemapUrl> = Vec::new();
        let mut i: usize = 0;
        assert(locations(urls@) =~= page_locations(paths@, 0, *config));
        while i < paths.len()
            invariant
                i <= paths.len(),
                locations(urls@) == page_locations(paths@, i as int, *config),
            decreases paths.len() - i,
        {
            let ghost before = locations(urls@);
            match get_guid_from_content_output_path(paths[i].as_str(), config) {
                Ok(loc) => {
                    urls.push(SitemapUrl { loc });
                    assert(locations(urls@) =~= before.push(loc@));
                },
                Err(_) => {},
            }
            i = i + 1;
        }
        Sitemap { urls }
    }

    /// Writes the sitemap as XML.
    pub fn to_xml(&self) -> (xml: String)
        ensures
            xml@ == sitemap_xml(locations(self.urls@)),
    {
        let ghost locs = locations(self.urls@);
        let mut out = "<?xml version=\"1.0\" encoding=\"UTF-8\"?>".to_owned();
        out.append("<urlset xmlns=\"http://www.sitemaps.org/schemas/sitemap/0.9\">");
        let ghost head = out@;
        let mut i: usize = 0;
        assert(out@ =~= head + url_elements(locs, 0));
        while i < self.urls.len()
            invariant
                i <= self.urls.len(),
                locs == locations(self.urls@),
                out@ == head + url_elements(locs, i as int),
            decreases self.urls.len() - i,
        {
            out.append("<url><loc>");
            out.append(escape_text(self.urls[i].loc.as_str()).as_str());
            out.append("</loc></url>");
            i = i + 1;
            assert(out@ =~= head + url_elements(locs, i as int));
        }
        out.append("</urlset>");
        out
    }
}

} // verus!
