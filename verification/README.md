# sbs_frontend

The server-side rendered frontend of SmileBASIC Source: forum threads, documentation,
search and user pages read from the website's database.

The logic of the website lives in `src/` and is verified with Verus: every public function
states what it computes in its contract, and the properties that span several functions are
stated and proved as laws (public proof functions named `law_*`).

- `bbcode` turns bbcode into html; `bbcode_laws` proves how scopes open and close and that
  the output opens no html element other than those of the tag table. Tag names are matched
  as text (a backslash takes the next character literally), not as regular expressions, so
  building a translator never fails.
- `pages` builds the database queries of each page and decides what the page shows:
  reply trees and metadata of threads (`forum_thread`), the documentation tree
  (`documentation`), whole-site search and its ranking (`searchall`), users, redirects of
  old links, page cards and icons (`common`).
- `routes::forums` and `api_data` build the requests sent to the content api for the forum;
  `routes::forum_content` reads the categories and threads the api returns.
- `routing` decides which page a request goes to; `warp::generic_handlers` turns results and
  errors into replies; `config` layers the settings files.

`app/` holds the server: it reads the settings, runs the queries on the database, and draws
the html with maud from what the library decided. Forum thread pages are not served: the
query that looks a thread up by its hash is not part of these sources, so the thread page
decisions of the library (`thread_view_plan`, `render_mainview`, `post_item_data`) are
exercised by the tests only.
