use framewire::site::router;

#[test]
fn site_files() {
    let routes: Vec<(&str, &str, &str)> =
        router().iter().map(|r| (r.path, r.file, r.content_type)).collect();
    assert_eq!(
        routes,
        vec![
            ("/", "index.html", "text/html; charset=utf-8"),
            ("/styles.css", "styles.css", "text/css"),
            ("/app.js", "app.js", "application/javascript"),
            ("/favicon.png", "favicon.png", "image/png"),
            ("/fonts/Inter-Light.woff2", "fonts/Inter-Light.woff2", "font/woff2"),
            ("/fonts/Inter-Regular.woff2", "fonts/Inter-Regular.woff2", "font/woff2"),
            ("/fonts/Inter-Bold.woff2", "fonts/Inter-Bold.woff2", "font/woff2"),
        ]
    );
}
