# actix-cors

CORS middleware for actix-web whose request handling is proved correct with
Verus.

- `src/` is the verified library: the CORS settings (`inner`), the checks of
  origins, requested methods and requested headers, the answer to preflight
  requests, the routing of every request (answered, refused, or passed to the
  wrapped service), and the CORS headers added to responses and to the error
  responses of the wrapped service (`middleware`). Contracts are stated over a
  model of actix-web's header map (`headers`); `laws` holds properties that
  hold for every request and setting.
- Private network access is a setting (`Inner::private_network_access`):
  `None` where it is not supported, else whether it is allowed.
- `app/` runs those decisions inside actix-web: it holds the settings in
  actix-web's own types (`CorsSettings`), implements `Service`,
  awaits the wrapped service, asks user-supplied origin predicates, and turns
  refusals into `400 Bad Request` responses.
- `tests/` exercises the library on concrete requests.
