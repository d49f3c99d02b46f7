//! The static product and download page at the site root.
use vstd::prelude::*;

verus! {

/// What an HTML page is served as.
pub const HTML_TYPE: &'static str = "text/html; charset=utf-8";

/// A file of the site, and where it is served.
pub struct SiteRoute {
    pub path: &'static str,
    /// The file below the site directory.
    pub file: &'static str,
    pub content_type: &'static str,
}

/// What a list of routes says: paths, files and content types.
pub open spec fn route_views(routes: Seq<SiteRoute>) -> Seq<(Seq<char>, Seq<char>, Seq<char>)> {
    routes.map_values(|r: SiteRoute| (r.path@, r.file@, r.content_type@))
}

/// The files of the site.
pub fn router() -> (routes: Vec<SiteRoute>)
    ensures
        route_views(routes@) == seq![
            ("/"@, "index.html"@, HTML_TYPE@),
            ("/styles.css"@, "styles.css"@, "text/css"@),
            ("/app.js"@, "app.js"@, "application/javascript"@),
            ("/favicon.png"@, "favicon.png"@, "image/png"@),
            ("/fonts/Inter-Light.woff2"@, "fonts/Inter-Light.woff2"@, "font/woff2"@),
            ("/fonts/Inter-Regular.woff2"@, "fonts/Inter-Regular.woff2"@, "font/woff2"@),
            ("/fonts/Inter-Bold.woff2"@, "fonts/Inter-Bold.woff2"@, "font/woff2"@),
        ],
{
    let mut routes: Vec<SiteRoute> = Vec::new();
    routes.push(SiteRoute { path: "/", file: "index.html", content_type: HTML_TYPE });
    routes.push(
        SiteRoute { path: "/styles.css", file: "styles.css", content_type: "text/css" },
    );
    routes.push(
        SiteRoute { path: "/app.js", file: "app.js", content_type: "application/javascript" },
    );
    routes.push(
        SiteRoute { path: "/favicon.png", file: "favicon.png", content_type: "image/png" },
    );
    routes.push(
        SiteRoute {
            path: "/fonts/Inter-Light.woff2",
            file: "fonts/Inter-Light.woff2",
            content_type: "font/woff2",
        },
    );
    routes.push(
        SiteRoute {
            path: "/fonts/Inter-Regular.woff2",
            file: "fonts/Inter-Regular.woff2",
            content_type: "font/woff2",
        },
    );
    routes.push(
        SiteRoute {
            path: "/fonts/Inter-Bold.woff2",
            file: "fonts/Inter-Bold.woff2",
            content_type: "font/woff2",
        },
    );
    assert(route_views(routes@) =~= seq![
        ("/"@, "index.html"@, HTML_TYPE@),
        ("/styles.css"@, "styles.css"@, "text/css"@),
        ("/app.js"@, "app.js"@, "application/javascript"@),
        ("/favicon.png"@, "favicon.png"@, "image/png"@),
        ("/fonts/Inter-Light.woff2"@, "fonts/Inter-Light.woff2"@, "font/woff2"@),
        ("/fonts/Inter-Regular.woff2"@, "fonts/Inter-Regular.woff2"@, "font/woff2"@),
        ("/fonts/Inter-Bold.woff2"@, "fonts/Inter-Bold.woff2"@, "font/woff2"@),
    ]);
    routes
}

/// Every file of the site is served under its own path, and the front page at
/// the root; nothing is served under two paths or as two files.
pub proof fn law_files_are_served_under_their_paths(routes: Vec<SiteRoute>)
    requires
        call_ensures(router, (), routes),
    ensures
        routes@.len() == 7,
        routes@[0].path@ == "/"@ && routes@[0].file@ == "index.html"@,
        forall|i: int| 1 <= i < 7 ==> (#[trigger] routes@[i]).path@ == "/"@ + routes@[i].file@,
        forall|i: int, j: int|
            0 <= i < j < 7 ==> (#[trigger] routes@[i]).file@ != (#[trigger] routes@[j]).file@,
{
    reveal_strlit("/");
    reveal_strlit("index.html");
    reveal_strlit("/styles.css");
    reveal_strlit("styles.css");
    reveal_strlit("/app.js");
    reveal_strlit("app.js");
    reveal_strlit("/favicon.png");
    reveal_strlit("favicon.png");
    reveal_strlit("/fonts/Inter-Light.woff2");
    reveal_strlit("fonts/Inter-Light.woff2");
    reveal_strlit("/fonts/Inter-Regular.woff2");
    reveal_strlit("fonts/Inter-Regular.woff2");
    reveal_strlit("/fonts/Inter-Bold.woff2");
    reveal_strlit("fonts/Inter-Bold.woff2");
    let seen = route_views(routes@);
    assert(seen.len() == routes@.len());
    assert(forall|i: int|
        0 <= i < 7 ==> #[trigger] seen[i] == (
            routes@[i].path@,
            routes@[i].file@,
            routes@[i].content_type@,
        ));
    assert(seen[0].0 == "/"@);
    assert(seen[1].0 =~= "/"@ + seen[1].1);
    assert(seen[2].0 =~= "/"@ + seen[2].1);
    assert(seen[3].0 =~= "/"@ + seen[3].1);
    assert(seen[4].0 =~= "/"@ + seen[4].1);
    assert(seen[5].0 =~= "/"@ + seen[5].1);
    assert(seen[6].0 =~= "/"@ + seen[6].1);
    assert(seen[0].1.len() == 10 && seen[1].1.len() == 10 && seen[0].1[0] != seen[1].1[0]);
    assert(seen[2].1.len() == 6 && seen[3].1.len() == 11 && seen[4].1.len() == 23);
    assert(seen[5].1.len() == 25 && seen[6].1.len() == 22);
}

/// Every file is served as what its ending says that it is.
pub proof fn law_files_are_served_as_what_they_are(routes: Vec<SiteRoute>, i: int)
    requires
        call_ensures(router, (), routes),
        0 <= i < routes@.len(),
    ensures
        ({
            let file = routes@[i].file@;
            let served = routes@[i].content_type@;
            let end = file.len() as int;
            &&& file.subrange(end - 5, end) == ".html"@ ==> served == "text/html; charset=utf-8"@
            &&& file.subrange(end - 4, end) == ".css"@ ==> served == "text/css"@
            &&& file.subrange(end - 3, end) == ".js"@ ==> served == "application/javascript"@
            &&& file.subrange(end - 4, end) == ".png"@ ==> served == "image/png"@
            &&& file.subrange(end - 6, end) == ".woff2"@ ==> served == "font/woff2"@
        }),
{
    reveal_strlit("index.html");
    reveal_strlit("styles.css");
    reveal_strlit("app.js");
    reveal_strlit("favicon.png");
    reveal_strlit("fonts/Inter-Light.woff2");
    reveal_strlit("fonts/Inter-Regular.woff2");
    reveal_strlit("fonts/Inter-Bold.woff2");
    reveal_strlit(".html");
    reveal_strlit(".css");
    reveal_strlit(".js");
    reveal_strlit(".png");
    reveal_strlit(".woff2");
    let seen = route_views(routes@);
    assert(seen[i] == (routes@[i].path@, routes@[i].file@, routes@[i].content_type@));
    let file = routes@[i].file@;
    assert(i == 0 ==> file == "index.html"@);
    assert(i == 1 ==> file == "styles.css"@);
    assert(i == 2 ==> file == "app.js"@);
    assert(i == 3 ==> file == "favicon.png"@);
    assert(i == 4 ==> file == "fonts/Inter-Light.woff2"@);
    assert(i == 5 ==> file == "fonts/Inter-Regular.woff2"@);
    assert(i == 6 ==> file == "fonts/Inter-Bold.woff2"@);
    assert(seen.len() == routes@.len());
    assert(0 <= i < 7);
    let end = file.len() as int;
    assert(end >= 6);
    let last = file[end - 1];
    assert(".html"@[4] == 'l' && ".css"@[3] == 's' && ".js"@[2] == 's' && ".png"@[3] == 'g'
        && ".woff2"@[5] == '2' && ".css"@[2] == 's' && ".js"@[1] == 'j');
    assert(file.subrange(end - 5, end)[4] == last && file.subrange(end - 4, end)[3] == last);
    assert(file.subrange(end - 3, end)[2] == last && file.subrange(end - 6, end)[5] == last);
    assert(file.subrange(end - 3, end)[1] == file[end - 2]);
    assert(file.subrange(end - 4, end)[2] == file[end - 2]);
}

} // verus!
