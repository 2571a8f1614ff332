# organa_backend

The backend of Organa, a personal-finance application, with its logic
verified in Verus.

- `src/` is the verified library:
  - `text`: decimal numbers (formatting as `Display` does, parsing as
    `str::parse` does) and string building;
  - `config`: the application settings from its environment variables;
  - `cookie`: reading the refresh token from a `Cookie` header and writing
    the `Set-Cookie` value;
  - `clock`: instants (Unix seconds and nanoseconds) within the range of
    dates of the `time` crate;
  - `jwt`: access tokens, HS256-signed JSON Web Tokens;
  - `auth`: issuing and refreshing tokens, as state machines that wait on
    the refresh-token store;
  - `http`: what the authentication endpoints answer;
  - `domain`, `dto`: the stored refresh token and the request and reply
    bodies.
- `app/` is the server: configuration from the environment, the database
  (refresh tokens and users), the axum handlers and routes, and the loop
  that drives the authentication flows against the database.
- `tests/` runs the library on concrete values.
